//! Closing a frame: its operations are replayed into one command buffer and
//! submitted, and only then take effect; if anything fails, the frame is
//! undone.

use vstd::prelude::*;

use crate::command::Command;
use crate::engine::{
    bump, bumped, object_releases, release_objects, release_pins, release_scratches,
    scratch_releases, staging_releases, Asset, AtlasView, CloseReason, EngineView, FrameCloseEvent,
    FrameRecord, FrameRecordView, Release, RenderEngine, SubmittedOp, SubmittedView,
    MAX_CLOSE_EVENTS,
};
use crate::error::{RenderError, VkCode};
use crate::frame::{
    commit_layouts, committed, count_renders, emit_frame, frame_commands, frame_scratches,
    render_count, rollback_pre_submit, rolled_back, saturated, scratches, FrameView, GlyphInsert,
    OpenFrame,
};
use crate::store::{DrawableStore, StoreView, Ticket};
use crate::submit::{FlushReason, GroupView, SubmitGroup};

verus! {

/// What closing a frame came to.
#[derive(Clone, Copy, Debug, PartialEq, Eq, Structural)]
pub enum CloseOutcome {
    /// No frame was open.
    AlreadyClosed,
    Submitted {
        frame_seq: u64,
        op_count: usize,
        pin_count: usize,
        ticket: Ticket,
        reason: CloseReason,
    },
}

/// The device's answers to closing a frame.
#[derive(Clone, Copy)]
pub struct CloseReply {
    /// The command buffer that was begun.
    pub begin: Result<u64, RenderError>,
    /// How recording the commands went.
    pub record: Result<(), RenderError>,
    pub end: Result<(), VkCode>,
    /// The queue's answer.
    pub submit: Result<(), VkCode>,
}

/// Why the command buffer of a frame came to nothing, once it was begun.
pub open spec fn record_error(s: EngineView, st: StoreView, f: FrameView, reply: CloseReply) -> Option<
    RenderError,
> {
    match frame_commands(st, s.text_ready(), f.ops) {
        Err(e) => Some(e),
        Ok(_) => match reply.record {
            Err(e) => Some(e),
            Ok(_) => match reply.end {
                Err(e) => Some(RenderError::Vk(e)),
                Ok(_) => None,
            },
        },
    }
}

/// What is noted of a close.
pub open spec fn close_event(f: FrameView, reason: CloseReason, aborted: bool) -> FrameCloseEvent {
    FrameCloseEvent {
        reason,
        ops_in_frame: f.ops.len() as usize,
        glyph_uploads_in_frame: f.glyph_uploads_in_frame,
        renders_in_frame: saturated(render_count(f.ops)),
        pin_count: f.pins.len() as usize,
        aborted,
    }
}

/// The waiting events with one more, unless too many wait already.
pub open spec fn events_with(list: Seq<FrameCloseEvent>, e: FrameCloseEvent) -> Seq<
    FrameCloseEvent,
> {
    if list.len() < MAX_CLOSE_EVENTS {
        list.push(e)
    } else {
        list
    }
}

/// The atlas after a frame was undone.
pub open spec fn atlas_rolled_back(s: EngineView, f: FrameView) -> AtlasView {
    if s.has(Asset::GlyphAtlas) {
        AtlasView {
            layout: match f.atlas_layout {
                Some(o) => o.pre,
                None => s.atlas.layout,
            },
            last_render_ticket: match f.atlas_prev_ticket {
                Some(t) => t,
                None => s.atlas.last_render_ticket,
            },
            ..s.atlas
        }
    } else {
        s.atlas
    }
}

/// The atlas after a frame was submitted: it holds the uploaded glyphs and
/// carries the frame's ticket.
pub open spec fn atlas_committed(s: EngineView, f: FrameView) -> AtlasView {
    if s.has(Asset::GlyphAtlas) {
        AtlasView {
            layout: match f.atlas_layout {
                Some(o) => o.cur,
                None => s.atlas.layout,
            },
            entries: s.atlas.entries + f.pending_glyph_inserts,
            last_render_ticket: Some(f.ticket),
            ..s.atlas
        }
    } else {
        s.atlas
    }
}

/// The engine after a frame was undone, `extra` being released first.
pub open spec fn aborted(
    s: EngineView,
    f: FrameView,
    reason: CloseReason,
    extra: Seq<Release>,
) -> EngineView {
    EngineView {
        frame: None,
        lifetime_closes: bumped(s.lifetime_closes),
        atlas: atlas_rolled_back(s, f),
        released: s.released + extra + object_releases(f.retired) + staging_releases(f.pins),
        close_events: events_with(s.close_events, close_event(f, reason, true)),
        ..s
    }
}

/// The command buffer of a frame that came to nothing, if there is a pool to
/// return it to, and the scratch images of the frame.
pub open spec fn unsubmitted(f: FrameView, cb: Option<u64>) -> Seq<Release> {
    (match cb {
        Some(cb) => seq![Release::CommandBuffer(cb)],
        None => Seq::empty(),
    }) + scratch_releases(scratches(f.ops))
}

/// The parked form of a frame.
pub open spec fn frame_parked(f: FrameView, cb: u64) -> SubmittedView {
    SubmittedView {
        cb,
        ticket: f.ticket,
        staging: None,
        scratch: scratches(f.ops),
        atlas_ticket: None,
        generation: f.generation,
        retired: Seq::empty(),
    }
}

/// A sequence number advanced by one, from the largest to zero.
pub open spec fn wrapped(n: u64) -> u64 {
    if n < u64::MAX {
        (n + 1) as u64
    } else {
        0
    }
}

/// The engine after a frame was submitted.
pub open spec fn close_committed(s: EngineView, f: FrameView, reason: CloseReason) -> EngineView {
    EngineView {
        frame: None,
        frame_seq: wrapped(s.frame_seq),
        lifetime_closes: bumped(s.lifetime_closes),
        atlas: atlas_committed(s, f),
        frames: s.frames.push(
            FrameRecordView {
                ticket: f.ticket,
                pins: f.pins,
                retired: f.retired,
                frame_seq: wrapped(s.frame_seq),
            },
        ),
        close_events: events_with(s.close_events, close_event(f, reason, false)),
        ..s
    }
}

/// The engine after the open frame was closed.
pub open spec fn close_engine(
    s: EngineView,
    st: StoreView,
    g: GroupView,
    reason: CloseReason,
    reply: CloseReply,
) -> EngineView {
    match s.frame {
        None => s,
        Some(f) => match reply.begin {
            Err(_) => aborted(s, f, reason, unsubmitted(f, None)),
            Ok(cb) => match record_error(s, st, f, reply) {
                Some(_) => aborted(
                    s,
                    f,
                    reason,
                    unsubmitted(
                        f,
                        if g.has_pool {
                            Some(cb)
                        } else {
                            None
                        },
                    ),
                ),
                None => {
                    let flushed = s.parking(frame_parked(f, cb)).flushed(
                        g.opened(f.ticket).appended(cb),
                        FlushReason::FrameBuilder,
                        reply.submit,
                    );
                    match reply.submit {
                        Err(_) => aborted(flushed, f, reason, Seq::empty()),
                        Ok(_) => close_committed(flushed, f, reason),
                    }
                },
            },
        },
    }
}

/// The store after the open frame was closed.
pub open spec fn close_store(s: EngineView, st: StoreView, reply: CloseReply) -> StoreView {
    match s.frame {
        None => st,
        Some(f) => if reply.begin is Err || record_error(s, st, f, reply) is Some || reply.submit
            is Err {
            rolled_back(st, f)
        } else {
            committed(st, f)
        },
    }
}

/// The group after the open frame was closed.
pub open spec fn close_group(
    s: EngineView,
    st: StoreView,
    g: GroupView,
    reply: CloseReply,
) -> GroupView {
    match s.frame {
        None => g,
        Some(f) => match reply.begin {
            Err(_) => g,
            Ok(cb) => if record_error(s, st, f, reply) is Some {
                GroupView { renderer_failed: true, ..g.opened(f.ticket) }
            } else {
                g.opened(f.ticket).appended(cb).flushed(reply.submit)
            },
        },
    }
}

/// The result of closing the open frame.
pub open spec fn close_result(
    s: EngineView,
    st: StoreView,
    reason: CloseReason,
    reply: CloseReply,
) -> Result<CloseOutcome, RenderError> {
    match s.frame {
        None => Ok(CloseOutcome::AlreadyClosed),
        Some(f) => match reply.begin {
            Err(e) => Err(e),
            Ok(_) => match record_error(s, st, f, reply) {
                Some(e) => Err(e),
                None => match reply.submit {
                    Err(e) => Err(RenderError::Vk(e)),
                    Ok(_) => Ok(
                        CloseOutcome::Submitted {
                            frame_seq: wrapped(s.frame_seq),
                            op_count: f.ops.len() as usize,
                            pin_count: f.pins.len() as usize,
                            ticket: f.ticket,
                            reason,
                        },
                    ),
                },
            },
        },
    }
}

fn append_inserts(entries: &mut Vec<GlyphInsert>, inserts: &Vec<GlyphInsert>)
    ensures
        final(entries)@ == old(entries)@ + inserts@,
{
    let ghost start = entries@;
    let mut i: usize = 0;
    proof {
        assert(entries@ =~= start + inserts@.take(0));
    }
    while i < inserts.len()
        invariant
            i <= inserts.len(),
            entries@ == start + inserts@.take(i as int),
        decreases inserts.len() - i,
    {
        entries.push(inserts[i]);
        i = i + 1;
        proof {
            assert(entries@ =~= start + inserts@.take(i as int));
        }
    }
    proof {
        assert(inserts@.take(i as int) =~= inserts@);
    }
}

impl RenderEngine {
    fn note_close(&mut self, event: FrameCloseEvent)
        ensures
            final(self)@ == (EngineView {
                close_events: events_with(old(self)@.close_events, event),
                ..old(self)@
            }),
    {
        if self.pending_frame_close_events.len() < MAX_CLOSE_EVENTS {
            self.pending_frame_close_events.push(event);
        }
        proof {
            assert(self@ =~= (EngineView {
                close_events: events_with(old(self)@.close_events, event),
                ..old(self)@
            }));
        }
    }

    /// Gives the atlas the layout and the ticket back that it had before a
    /// frame.
    fn rollback_atlas(&mut self, frame: &OpenFrame)
        ensures
            final(self)@ == (EngineView {
                atlas: atlas_rolled_back(old(self)@, frame@),
                ..old(self)@
            }),
    {
        if self.has_asset(Asset::GlyphAtlas) {
            match frame.atlas_layout {
                Some(o) => {
                    self.atlas.layout = o.pre;
                },
                None => {},
            }
            match frame.atlas_prev_ticket {
                Some(t) => {
                    self.atlas.last_render_ticket = t;
                },
                None => {},
            }
        }
        proof {
            assert(self@.atlas =~= atlas_rolled_back(old(self)@, frame@));
            assert(self@ =~= (EngineView {
                atlas: atlas_rolled_back(old(self)@, frame@),
                ..old(self)@
            }));
        }
    }

    /// Undoes a frame that was taken out of the engine.
    fn abort_close(
        &mut self,
        store: &mut DrawableStore,
        frame: OpenFrame,
        event: FrameCloseEvent,
        cb: Option<u64>,
        owns_scratches: bool,
    )
        ensures
            final(store)@ == rolled_back(old(store)@, frame@),
            final(self)@ == (EngineView {
                lifetime_closes: bumped(old(self)@.lifetime_closes),
                atlas: atlas_rolled_back(old(self)@, frame@),
                released: old(self)@.released + (if owns_scratches {
                    unsubmitted(frame@, cb)
                } else {
                    Seq::empty()
                }) + object_releases(frame@.retired) + staging_releases(frame@.pins),
                close_events: events_with(old(self)@.close_events, event),
                ..old(self)@
            }),
    {
        let ghost s = self@;
        let ghost f = frame@;
        let mut frame = frame;
        rollback_pre_submit(store, &mut frame);
        self.rollback_atlas(&frame);
        if owns_scratches {
            match cb {
                Some(cb) => {
                    self.released.push(Release::CommandBuffer(cb));
                },
                None => {},
            }
            let list = frame_scratches(&frame);
            release_scratches(&list, &mut self.released);
            proof {
                assert(self.released@ =~= s.released + unsubmitted(f, cb));
            }
        }
        release_objects(&frame.retired, &mut self.released);
        release_pins(&frame.pins, &mut self.released);
        self.lifetime_closes = bump(self.lifetime_closes);
        self.note_close(event);
        proof {
            let extra = if owns_scratches {
                unsubmitted(f, cb)
            } else {
                Seq::empty()
            };
            assert(self@.released =~= s.released + extra + object_releases(f.retired)
                + staging_releases(f.pins));
            assert(self@.atlas == atlas_rolled_back(s, f));
            assert(self@ =~= (EngineView {
                lifetime_closes: bumped(s.lifetime_closes),
                atlas: atlas_rolled_back(s, f),
                released: s.released + extra + object_releases(f.retired) + staging_releases(
                    f.pins,
                ),
                close_events: events_with(s.close_events, event),
                ..s
            }));
        }
    }

    /// Takes a submitted frame over: its layouts and glyphs become current,
    /// and what it keeps alive waits for its ticket.
    fn commit_close_success(
        &mut self,
        store: &mut DrawableStore,
        frame: OpenFrame,
        event: FrameCloseEvent,
    )
        ensures
            final(store)@ == committed(old(store)@, frame@),
            final(self)@ == (EngineView {
                frame_seq: wrapped(old(self)@.frame_seq),
                lifetime_closes: bumped(old(self)@.lifetime_closes),
                atlas: atlas_committed(old(self)@, frame@),
                frames: old(self)@.frames.push(
                    FrameRecordView {
                        ticket: frame@.ticket,
                        pins: frame@.pins,
                        retired: frame@.retired,
                        frame_seq: wrapped(old(self)@.frame_seq),
                    },
                ),
                close_events: events_with(old(self)@.close_events, event),
                ..old(self)@
            }),
    {
        let ghost s = self@;
        let ghost f = frame@;
        commit_layouts(store, &frame);
        if self.has_asset(Asset::GlyphAtlas) {
            match frame.atlas_layout {
                Some(o) => {
                    self.atlas.layout = o.cur;
                },
                None => {},
            }
            append_inserts(&mut self.atlas.entries, &frame.pending_glyph_inserts);
            self.atlas.last_render_ticket = Some(frame.ticket);
        }
        self.frame_seq = if self.frame_seq < u64::MAX {
            self.frame_seq + 1
        } else {
            0
        };
        self.lifetime_closes = bump(self.lifetime_closes);
        let record = FrameRecord {
            ticket: frame.ticket,
            pins: frame.pins,
            retired: frame.retired,
            frame_seq: self.frame_seq,
        };
        self.pending_frames.push(record);
        proof {
            assert(self@.frames =~= s.frames.push(record@));
            assert(self@.atlas =~= atlas_committed(s, f));
        }
        self.note_close(event);
        proof {
            assert(self@ =~= (EngineView {
                frame_seq: wrapped(s.frame_seq),
                lifetime_closes: bumped(s.lifetime_closes),
                atlas: atlas_committed(s, f),
                frames: s.frames.push(record@),
                close_events: events_with(s.close_events, event),
                ..s
            }));
        }
    }

    /// The commands that replay the open frame, or why it cannot be replayed;
    /// `None` if no frame is open.
    pub fn close_open_frame_plan(&self, store: &DrawableStore) -> (r: Option<
        Result<Vec<Command>, RenderError>,
    >)
        ensures
            match self@.frame {
                None => r is None,
                Some(f) => r is Some && match frame_commands(
                    store@,
                    self@.text_ready(),
                    f.ops,
                ) {
                    Ok(cmds) => r->0 is Ok && (r->0)->Ok_0@ == cmds,
                    Err(e) => r->0 == Err::<Vec<Command>, RenderError>(e),
                },
            },
    {
        let ready = self.has_asset(Asset::GlyphAtlas) && self.has_asset(Asset::TextPipeline);
        match &self.frame {
            None => None,
            Some(f) => Some(emit_frame(store, ready, f)),
        }
    }

    /// Closes the open frame. Its operations go into one command buffer,
    /// which is submitted at once. The frame takes effect only if that
    /// succeeds; otherwise every drawable that it refers to is as it was
    /// before the frame.
    pub fn close_open_frame(
        &mut self,
        store: &mut DrawableStore,
        group: &mut SubmitGroup,
        reason: CloseReason,
        reply: CloseReply,
    ) -> (r: Result<CloseOutcome, RenderError>)
        ensures
            final(self)@ == close_engine(old(self)@, old(store)@, old(group)@, reason, reply),
            final(store)@ == close_store(old(self)@, old(store)@, reply),
            final(group)@ == close_group(old(self)@, old(store)@, old(group)@, reply),
            r == close_result(old(self)@, old(store)@, reason, reply),
    {
        let ghost s = self@;
        let ghost st = store@;
        let ghost g = group@;
        let ready = self.has_asset(Asset::GlyphAtlas) && self.has_asset(Asset::TextPipeline);
        let frame = match self.frame.take() {
            None => {
                return Ok(CloseOutcome::AlreadyClosed);
            },
            Some(f) => f,
        };
        let ghost f = frame@;
        let op_count: usize = frame.ops.len();
        let pin_count: usize = frame.pins.len();
        let frame_ticket = frame.ticket;
        let renders: u32 = count_renders(&frame);
        let failure = FrameCloseEvent {
            reason,
            ops_in_frame: op_count,
            glyph_uploads_in_frame: frame.glyph_uploads_in_frame,
            renders_in_frame: renders,
            pin_count,
            aborted: true,
        };
        proof {
            assert(self@ =~= (EngineView { frame: None, ..s }));
            assert(failure == close_event(f, reason, true));
        }
        let cb: u64 = match reply.begin {
            Ok(cb) => cb,
            Err(e) => {
                self.abort_close(store, frame, failure, None, true);
                proof {
                    assert(self@ =~= aborted(s, f, reason, unsubmitted(f, None)));
                }
                return Err(e);
            },
        };
        group.ticket_or_open(frame_ticket);
        let error: Option<RenderError> = match emit_frame(store, ready, &frame) {
            Err(e) => Some(e),
            Ok(_) => match reply.record {
                Err(e) => Some(e),
                Ok(_) => match reply.end {
                    Err(e) => Some(RenderError::Vk(e)),
                    Ok(_) => None,
                },
            },
        };
        match error {
            Some(e) => {
                group.renderer_failed = true;
                let back: Option<u64> = if group.has_pool {
                    Some(cb)
                } else {
                    None
                };
                self.abort_close(store, frame, failure, back, true);
                proof {
                    assert(self@ =~= aborted(s, f, reason, unsubmitted(f, back)));
                    assert(group@ =~= (GroupView { renderer_failed: true, ..g.opened(f.ticket) }));
                }
                return Err(e);
            },
            None => {},
        }
        group.append(cb);
        let op = SubmittedOp {
            cb,
            ticket: frame_ticket,
            staging: None,
            scratch: frame_scratches(&frame),
            atlas_ticket: None,
            generation: frame.generation,
            retired: Vec::new(),
        };
        self.park(op);
        proof {
            assert(op@ =~= frame_parked(f, cb));
        }
        match self.flush_submit_group(group, FlushReason::FrameBuilder, reply.submit) {
            Ok(_) => {
                let ghost flushed = s.parking(frame_parked(f, cb)).flushed(
                    g.opened(f.ticket).appended(cb),
                    FlushReason::FrameBuilder,
                    reply.submit,
                );
                proof {
                    assert(self@ =~= (EngineView { frame: None, ..flushed }));
                }
                let success = FrameCloseEvent { aborted: false, ..failure };
                self.commit_close_success(store, frame, success);
                proof {
                    assert(success == close_event(f, reason, false));
                    assert(self@ =~= close_committed(flushed, f, reason));
                }
                Ok(
                    CloseOutcome::Submitted {
                        frame_seq: self.frame_seq,
                        op_count,
                        pin_count,
                        ticket: frame_ticket,
                        reason,
                    },
                )
            },
            Err(e) => {
                let ghost flushed = s.parking(frame_parked(f, cb)).flushed(
                    g.opened(f.ticket).appended(cb),
                    FlushReason::FrameBuilder,
                    reply.submit,
                );
                proof {
                    assert(self@ =~= (EngineView { frame: None, ..flushed }));
                }
                self.abort_close(store, frame, failure, None, false);
                proof {
                    assert(self@ =~= aborted(flushed, f, reason, Seq::empty()));
                }
                Err(RenderError::Vk(e))
            },
        }
    }
}

} // verus!
