//! The group of command buffers that share one ticket and are submitted
//! together.

use vstd::prelude::*;

use crate::error::VkCode;
use crate::store::Ticket;

verus! {

/// Why a group is submitted.
#[derive(Clone, Copy, Debug, PartialEq, Eq, Structural)]
pub enum FlushReason {
    MaxSize,
    SceneCompose,
    SyncBoundary,
    PresentCompletionSignal,
    PageflipRetire,
    FrameBuilder,
    Shutdown,
}

/// What became of one flush.
#[derive(Clone, Copy, Debug, PartialEq, Eq, Structural)]
pub struct FlushOutcome {
    pub reason: FlushReason,
    /// The command buffers that the group held.
    pub command_buffers: usize,
    /// The error of the submission.
    pub error: Option<VkCode>,
}

/// The open group. A ticket is shared by every command buffer that joins the
/// group until it is submitted.
pub struct SubmitGroup {
    pub ticket: Option<Ticket>,
    pub entries: Vec<u64>,
    pub max_size: usize,
    /// Set for good once a submission or a recording has failed.
    pub renderer_failed: bool,
    /// Whether command buffers can be allocated.
    pub has_pool: bool,
}

#[verifier::ext_equal]
pub ghost struct GroupView {
    pub ticket: Option<Ticket>,
    pub entries: Seq<u64>,
    pub max_size: usize,
    pub renderer_failed: bool,
    pub has_pool: bool,
}

impl GroupView {
    /// The ticket that work joining the group gets, `fresh` being a new one.
    pub open spec fn ticket_or(self, fresh: Ticket) -> Ticket {
        match self.ticket {
            Some(t) => t,
            None => fresh,
        }
    }

    pub open spec fn opened(self, fresh: Ticket) -> GroupView {
        GroupView { ticket: Some(self.ticket_or(fresh)), ..self }
    }

    pub open spec fn appended(self, cb: u64) -> GroupView {
        GroupView { entries: self.entries.push(cb), ..self }
    }

    /// Whether the group must be submitted before more work joins it.
    pub open spec fn full(self) -> bool {
        self.entries.len() >= self.max_size
    }

    /// The group after a flush to which the queue answered `reply`. An empty
    /// group is not submitted and keeps its ticket.
    pub open spec fn flushed(self, reply: Result<(), VkCode>) -> GroupView {
        if self.entries.len() == 0 {
            self
        } else {
            GroupView {
                ticket: None,
                entries: Seq::empty(),
                renderer_failed: self.renderer_failed || reply is Err,
                ..self
            }
        }
    }

    /// What a flush returns when the queue answered `reply`.
    pub open spec fn flush_result(self, reply: Result<(), VkCode>) -> Result<(), VkCode> {
        if self.entries.len() == 0 {
            Ok(())
        } else {
            reply
        }
    }

    /// What is noted of a flush; nothing of one that submitted nothing.
    pub open spec fn flush_outcome(
        self,
        reason: FlushReason,
        reply: Result<(), VkCode>,
    ) -> Option<FlushOutcome> {
        if self.entries.len() == 0 {
            None
        } else {
            Some(
                FlushOutcome {
                    reason,
                    command_buffers: self.entries.len() as usize,
                    error: match reply {
                        Ok(_) => None,
                        Err(e) => Some(e),
                    },
                },
            )
        }
    }
}

impl View for SubmitGroup {
    type V = GroupView;

    open spec fn view(&self) -> GroupView {
        GroupView {
            ticket: self.ticket,
            entries: self.entries@,
            max_size: self.max_size,
            renderer_failed: self.renderer_failed,
            has_pool: self.has_pool,
        }
    }
}

impl SubmitGroup {
    /// A closed group that is submitted when it holds `max_size` entries.
    pub fn new(max_size: usize) -> (r: SubmitGroup)
        ensures
            r@ == (GroupView {
                ticket: None,
                entries: Seq::empty(),
                max_size,
                renderer_failed: false,
                has_pool: true,
            }),
    {
        let r = SubmitGroup {
            ticket: None,
            entries: Vec::new(),
            max_size,
            renderer_failed: false,
            has_pool: true,
        };
        proof {
            assert(r@.entries =~= Seq::empty());
        }
        r
    }

    /// Whether a ticket is out.
    pub fn is_open(&self) -> (r: bool)
        ensures
            r == (self@.ticket is Some),
    {
        self.ticket.is_some()
    }

    /// The command buffers that wait.
    pub fn size(&self) -> (r: usize)
        ensures
            r == self@.entries.len(),
    {
        self.entries.len()
    }

    /// The ticket of the group; `fresh` becomes it if the group was closed.
    pub fn ticket_or_open(&mut self, fresh: Ticket) -> (r: Ticket)
        ensures
            r == old(self)@.ticket_or(fresh),
            final(self)@ == old(self)@.opened(fresh),
    {
        match self.ticket {
            Some(t) => t,
            None => {
                self.ticket = Some(fresh);
                fresh
            },
        }
    }

    /// Adds a command buffer.
    pub fn append(&mut self, cb: u64)
        ensures
            final(self)@ == old(self)@.appended(cb),
    {
        self.entries.push(cb);
    }

    /// Whether the group must be submitted.
    pub fn is_full(&self) -> (r: bool)
        ensures
            r == self@.full(),
    {
        self.entries.len() >= self.max_size
    }

    /// Whether the group must be submitted once one more command buffer has
    /// joined it.
    pub fn fills_with_one_more(&self) -> (r: bool)
        ensures
            forall|cb: u64| r == #[trigger] self@.appended(cb).full(),
    {
        self.entries.len() >= self.max_size || self.entries.len() + 1 == self.max_size
    }

    /// Takes note of a submission of the group to which the queue answered
    /// `reply`.
    pub fn flush(&mut self, reason: FlushReason, reply: Result<(), VkCode>) -> (r: (
        Result<(), VkCode>,
        Option<FlushOutcome>,
    ))
        ensures
            final(self)@ == old(self)@.flushed(reply),
            r.0 == old(self)@.flush_result(reply),
            r.1 == old(self)@.flush_outcome(reason, reply),
    {
        let count: usize = self.entries.len();
        if count == 0 {
            return (Ok(()), None);
        }
        self.ticket = None;
        self.entries = Vec::new();
        proof {
            assert(self.entries@ =~= Seq::empty());
        }
        match reply {
            Ok(u) => (
                Ok(u),
                Some(FlushOutcome { reason, command_buffers: count, error: None }),
            ),
            Err(e) => {
                self.renderer_failed = true;
                (
                    Err(e),
                    Some(FlushOutcome { reason, command_buffers: count, error: Some(e) }),
                )
            },
        }
    }
}

} // verus!
