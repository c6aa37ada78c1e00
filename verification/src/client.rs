//! One connection to a tool-providing process, from handshake to shutdown.
//!
//! The client decides; it does not move bytes. Its caller writes the lines that the
//! client frames, hands it the lines that arrive, and gives each result that the client
//! routes to the waiter it names.

use vstd::prelude::*;
use serde_json::Value;
use crate::correlator::{distinct_ids, slots_map, Correlator, Slot};
use crate::json::json_text;
use crate::wire::{
    decode, decoded, frame_initialize, frame_request, is_line, outcome_view, reply_outcome,
    request_line, Incoming, IncomingView, McpError, Operation, Reply, ReplyView,
};

verus! {

/// Where a connection stands in its life.
#[derive(Debug, Clone, Copy, PartialEq, Eq)]
pub enum Phase {
    /// The handshake has not succeeded yet.
    Connecting,
    /// Operations may be issued.
    Ready,
    /// Shutdown has begun.
    ShuttingDown,
    /// Nothing more will happen.
    Closed,
}

/// A connection as plain values.
pub struct ClientView<W> {
    pub phase: Phase,
    /// The identifier that the next request gets.
    pub next_id: u64,
    /// The waiter of each request that is still unanswered.
    pub pending: Map<u64, W>,
}

/// A request that was framed and registered: write `line` to the process.
#[derive(Debug, PartialEq, Eq)]
pub struct Issued {
    pub id: u64,
    pub line: String,
}

/// A request that was not accepted; the waiter comes back unused.
#[derive(Debug)]
pub struct Refused<W> {
    pub error: McpError,
    pub waiter: W,
}

/// A result and the waiter that it is for.
#[derive(Debug)]
pub struct Delivery<W> {
    pub id: u64,
    pub waiter: W,
    pub outcome: Result<Value, McpError>,
}

/// What became of a line from the process.
#[derive(Debug)]
pub enum Routed<W> {
    /// It answered a pending request.
    Delivered(Delivery<W>),
    /// It named a method of its own; nothing is pending on it.
    Notice { method: String },
    /// It was not a message, or answered nothing that is pending.
    Dropped,
}

/// What a shutdown asks of the caller.
#[derive(Debug)]
pub struct ShutdownStep<W> {
    /// The requests that will get no response.
    pub deliveries: Vec<Delivery<W>>,
    /// Whether the process is to be terminated; not so where the connection was closed
    /// already.
    pub terminate: bool,
}

/// The phase that follows the answer to a pending request. The only request that can be
/// pending while connecting is the handshake: its success makes the connection ready,
/// its failure closes it.
pub open spec fn phase_after_reply(phase: Phase, reply: ReplyView) -> Phase {
    match phase {
        Phase::Connecting => match reply {
            ReplyView::Success(_) => Phase::Ready,
            ReplyView::Failure(_) => Phase::Closed,
        },
        _ => phase,
    }
}

/// The phase that follows the loss of a pending request to its caller. Losing the
/// handshake closes the connection.
pub open spec fn phase_after_abandon(phase: Phase) -> Phase {
    match phase {
        Phase::Connecting => Phase::Closed,
        _ => phase,
    }
}

/// The phase that follows the end of the stream from the process.
pub open spec fn phase_after_stream_end(phase: Phase) -> Phase {
    match phase {
        Phase::ShuttingDown => Phase::ShuttingDown,
        _ => Phase::Closed,
    }
}

/// The phase that follows a call for shutdown.
pub open spec fn phase_after_shutdown(phase: Phase) -> Phase {
    match phase {
        Phase::Closed => Phase::Closed,
        _ => Phase::ShuttingDown,
    }
}

/// The place of a phase in the life of a connection.
pub open spec fn phase_rank(phase: Phase) -> int {
    match phase {
        Phase::Connecting => 0,
        Phase::Ready => 1,
        Phase::ShuttingDown => 2,
        Phase::Closed => 3,
    }
}

/// A connection only moves forward in its life: from connecting to ready, to shutting
/// down, to closed. No event takes it back.
pub proof fn lemma_phase_never_goes_back(phase: Phase, reply: ReplyView)
    ensures
        phase_rank(phase_after_reply(phase, reply)) >= phase_rank(phase),
        phase_rank(phase_after_abandon(phase)) >= phase_rank(phase),
        phase_rank(phase_after_stream_end(phase)) >= phase_rank(phase),
        phase_rank(phase_after_shutdown(phase)) >= phase_rank(phase),
{
}

/// What holds of a connection at all times: requests are pending only while a response
/// or a teardown can still reach them, and while connecting at most the handshake is.
pub open spec fn consistent<W>(v: ClientView<W>) -> bool {
    &&& v.next_id >= 1
    &&& forall|id: u64| #[trigger] v.pending.dom().contains(id) ==> 1 <= id < v.next_id
    &&& match v.phase {
        Phase::Connecting => (v.next_id == 1 && v.pending.dom() =~= Set::<u64>::empty()) || (
        v.next_id == 2 && v.pending.dom() =~= set![1u64]),
        Phase::Ready => true,
        Phase::ShuttingDown => v.pending.dom() =~= Set::<u64>::empty(),
        Phase::Closed => v.pending.dom() =~= Set::<u64>::empty(),
    }
}

/// The slots that a sequence of deliveries stands for.
pub open spec fn delivered_slots<W>(ds: Seq<Delivery<W>>) -> Seq<Slot<W>> {
    Seq::new(ds.len(), |i: int| Slot { id: ds[i].id, waiter: ds[i].waiter })
}

/// `ds` tells every request of `pending`, once and no other, that the connection closed.
pub open spec fn closes_all<W>(ds: Seq<Delivery<W>>, pending: Map<u64, W>) -> bool {
    &&& distinct_ids(delivered_slots(ds))
    &&& slots_map(delivered_slots(ds)) == pending
    &&& forall|i: int|
        0 <= i < ds.len() ==> (#[trigger] ds[i]).outcome == Err::<Value, McpError>(
            McpError::ConnectionClosed,
        )
}

/// The client of one connection, with waiters of type `W`.
#[derive(Debug)]
pub struct ProtocolClient<W> {
    phase: Phase,
    correlator: Correlator<W>,
}

fn close_all<W>(slots: Vec<Slot<W>>) -> (ds: Vec<Delivery<W>>)
    ensures
        delivered_slots(ds@) == slots@,
        forall|i: int|
            0 <= i < ds@.len() ==> (#[trigger] ds@[i]).outcome == Err::<Value, McpError>(
                McpError::ConnectionClosed,
            ),
{
    let mut out: Vec<Delivery<W>> = Vec::new();
    for slot in it: slots
        invariant
            it.seq() == slots@,
            out@.len() == it.index(),
            forall|k: int|
                0 <= k < out@.len() ==> (#[trigger] out@[k]).id == slots@[k].id && out@[k].waiter
                    == slots@[k].waiter && out@[k].outcome == Err::<Value, McpError>(
                    McpError::ConnectionClosed,
                ),
    {
        out.push(Delivery { id: slot.id, waiter: slot.waiter, outcome: Err(McpError::ConnectionClosed) });
    }
    assert(delivered_slots(out@) =~= slots@);
    out
}

impl<W> View for ProtocolClient<W> {
    type V = ClientView<W>;

    closed spec fn view(&self) -> ClientView<W> {
        ClientView {
            phase: self.phase,
            next_id: self.correlator.next_free(),
            pending: self.correlator.pending(),
        }
    }
}

/// What issuing `op` on a connection comes to. A ready connection frames the request
/// under its next identifier and keeps `waiter` for the answer; any other refuses, hands
/// the waiter back and stays as it is.
pub open spec fn issues<W>(
    before: ProtocolClient<W>,
    after: ProtocolClient<W>,
    op: Operation,
    waiter: W,
    r: Result<Issued, Refused<W>>,
) -> bool {
    match r {
        Ok(issued) => {
            &&& before@.phase is Ready
            &&& issued.id == before@.next_id
            &&& issued.line@ == request_line(issued.id, op.method(), op.params())
            &&& is_line(issued.line@)
            &&& after@ == (ClientView {
                phase: Phase::Ready,
                next_id: (issued.id + 1) as u64,
                pending: before@.pending.insert(issued.id, waiter),
            })
        },
        Err(refused) => {
            &&& !(before@.phase is Ready)
            &&& refused.error == McpError::NotConnected
            &&& refused.waiter == waiter
            &&& after@ == before@
        },
    }
}

impl<W> ProtocolClient<W> {
    /// The client is sound.
    pub closed spec fn wf(&self) -> bool {
        self.correlator.wf() && consistent(self@)
    }

    /// A sound client is consistent: in particular nothing is pending on a connection
    /// that is shutting down or closed.
    pub proof fn lemma_consistent(&self)
        requires
            self.wf(),
        ensures
            consistent(self@),
            (self@.phase is ShuttingDown || self@.phase is Closed) ==> self@.pending
                == Map::<u64, W>::empty(),
    {
        if self@.phase is ShuttingDown || self@.phase is Closed {
            assert(self@.pending =~= Map::<u64, W>::empty());
        }
    }

    /// A client for a process that was just started: connecting, nothing issued.
    pub fn new() -> (c: Self)
        ensures
            c.wf(),
            c@ == (ClientView { phase: Phase::Connecting, next_id: 1, pending: Map::<u64, W>::empty() }),
    {
        ProtocolClient { phase: Phase::Connecting, correlator: Correlator::new() }
    }

    /// The phase of the connection.
    pub fn phase(&self) -> (p: Phase)
        ensures
            p == self@.phase,
    {
        self.phase
    }

    /// Whether operations may be issued.
    pub fn is_ready(&self) -> (r: bool)
        ensures
            r == (self@.phase is Ready),
    {
        match self.phase {
            Phase::Ready => true,
            _ => false,
        }
    }

    /// Whether another request identifier can be handed out.
    pub fn can_issue(&self) -> (r: bool)
        ensures
            r == (self@.next_id < u64::MAX),
    {
        self.correlator.can_issue()
    }

    /// Whether the request `id` is unanswered.
    pub fn is_pending(&self, id: u64) -> (r: bool)
        requires
            self.wf(),
        ensures
            r == self@.pending.dom().contains(id),
    {
        self.correlator.is_pending(id)
    }

    /// Whether any request is unanswered.
    pub fn has_pending(&self) -> (r: bool)
        requires
            self.wf(),
        ensures
            r == (self@.pending != Map::<u64, W>::empty()),
    {
        let n = self.correlator.pending_count();
        proof {
            if n == 0 {
                self@.pending.dom().lemma_len0_is_empty();
                assert(self@.pending =~= Map::<u64, W>::empty());
            }
        }
        n != 0
    }

    /// Opens the handshake: frames the `initialize` request with `params` as the client's
    /// description of itself, and leaves `waiter` for the answer. Only a connection on
    /// which nothing was issued yet accepts it.
    pub fn begin_handshake(&mut self, params: &Value, waiter: W) -> (r: Result<Issued, Refused<W>>)
        requires
            old(self).wf(),
        ensures
            final(self).wf(),
            match r {
                Ok(issued) => {
                    &&& old(self)@.phase is Connecting
                    &&& old(self)@.next_id == 1
                    &&& issued.id == 1
                    &&& issued.line@ == request_line(1, "initialize"@, Some(json_text(*params)))
                    &&& is_line(issued.line@)
                    &&& final(self)@ == (ClientView {
                        phase: Phase::Connecting,
                        next_id: 2,
                        pending: old(self)@.pending.insert(1, waiter),
                    })
                },
                Err(refused) => {
                    &&& !(old(self)@.phase is Connecting && old(self)@.next_id == 1)
                    &&& refused.error == McpError::HandshakeFailed
                    &&& refused.waiter == waiter
                    &&& final(self)@ == old(self)@
                },
            },
    {
        let fresh = match self.phase {
            Phase::Connecting => self.correlator.next_is(1),
            _ => false,
        };
        if !fresh {
            return Err(Refused { error: McpError::HandshakeFailed, waiter });
        }
        let id = self.correlator.enroll(waiter);
        let line = frame_initialize(id, params);
        assert(self@.pending.dom() =~= set![1u64]);
        Ok(Issued { id, line })
    }

    /// Issues one operation: frames its request under a fresh identifier and leaves
    /// `waiter` for the answer. Only a ready connection accepts it.
    pub fn begin_request(&mut self, op: &Operation, waiter: W) -> (r: Result<Issued, Refused<W>>)
        requires
            old(self).wf(),
            old(self)@.next_id < u64::MAX,
        ensures
            final(self).wf(),
            issues(*old(self), *final(self), *op, waiter, r),
    {
        match self.phase {
            Phase::Ready => {},
            _ => {
                return Err(Refused { error: McpError::NotConnected, waiter });
            },
        }
        let id = self.correlator.enroll(waiter);
        proof {
            self.correlator.lemma_pending_were_issued();
        }
        let line = frame_request(id, op);
        Ok(Issued { id, line })
    }

    /// Asks for the tools of the process: a `tools/list` request without parameters.
    pub fn list_tools(&mut self, waiter: W) -> (r: Result<Issued, Refused<W>>)
        requires
            old(self).wf(),
            old(self)@.next_id < u64::MAX,
        ensures
            final(self).wf(),
            issues(*old(self), *final(self), Operation::ListTools, waiter, r),
    {
        self.begin_request(&Operation::ListTools, waiter)
    }

    /// Invokes the tool `name` with `arguments`, which go out as they are: a `tools/call`
    /// request.
    pub fn call_tool(&mut self, name: String, arguments: Value, waiter: W) -> (r: Result<
        Issued,
        Refused<W>,
    >)
        requires
            old(self).wf(),
            old(self)@.next_id < u64::MAX,
        ensures
            final(self).wf(),
            issues(*old(self), *final(self), Operation::CallTool { name, arguments }, waiter, r),
    {
        let op = Operation::CallTool { name, arguments };
        self.begin_request(&op, waiter)
    }

    /// Asks for the resources of the process: a `resources/list` request without
    /// parameters.
    pub fn list_resources(&mut self, waiter: W) -> (r: Result<Issued, Refused<W>>)
        requires
            old(self).wf(),
            old(self)@.next_id < u64::MAX,
        ensures
            final(self).wf(),
            issues(*old(self), *final(self), Operation::ListResources, waiter, r),
    {
        self.begin_request(&Operation::ListResources, waiter)
    }

    /// Reads the resource at `uri`: a `resources/read` request.
    pub fn read_resource(&mut self, uri: String, waiter: W) -> (r: Result<Issued, Refused<W>>)
        requires
            old(self).wf(),
            old(self)@.next_id < u64::MAX,
        ensures
            final(self).wf(),
            issues(*old(self), *final(self), Operation::ReadResource { uri }, waiter, r),
    {
        let op = Operation::ReadResource { uri };
        self.begin_request(&op, waiter)
    }

    /// Gives up the request `id`, whose line could not be written or whose caller will
    /// wait no longer: its waiter comes back and no response will reach it. Giving up
    /// the handshake closes the connection.
    pub fn abandon(&mut self, id: u64) -> (r: Option<W>)
        requires
            old(self).wf(),
        ensures
            final(self).wf(),
            final(self)@.next_id == old(self)@.next_id,
            match r {
                Some(w) => {
                    &&& old(self)@.pending.dom().contains(id)
                    &&& w == old(self)@.pending[id]
                    &&& final(self)@.pending == old(self)@.pending.remove(id)
                    &&& final(self)@.phase == phase_after_abandon(old(self)@.phase)
                },
                None => {
                    &&& !old(self)@.pending.dom().contains(id)
                    &&& final(self)@ == old(self)@
                },
            },
    {
        match self.correlator.resolve(id) {
            Some(w) => {
                match self.phase {
                    Phase::Connecting => {
                        self.phase = Phase::Closed;
                    },
                    _ => {},
                }
                proof {
                    self.correlator.lemma_pending_were_issued();
                }
                assert(old(self)@.phase is Connecting ==> self@.pending.dom() =~= Set::<u64>::empty());
                Some(w)
            },
            None => None,
        }
    }

    /// Takes one line from the process. A response to a pending request is paired with
    /// the waiter left under its identifier and the request is pending no more; the
    /// answer to the handshake also decides whether the connection becomes ready. Any
    /// other line changes nothing.
    pub fn on_message(&mut self, line: &[u8]) -> (r: Routed<W>)
        requires
            old(self).wf(),
        ensures
            final(self).wf(),
            match decoded(line@) {
                IncomingView::Response { id, reply } => if old(self)@.pending.dom().contains(id) {
                    &&& r matches Routed::Delivered(d)
                    &&& d.id == id
                    &&& d.waiter == old(self)@.pending[id]
                    &&& outcome_view(d.outcome) == reply_outcome(reply)
                    &&& final(self)@ == (ClientView {
                        phase: phase_after_reply(old(self)@.phase, reply),
                        next_id: old(self)@.next_id,
                        pending: old(self)@.pending.remove(id),
                    })
                } else {
                    r is Dropped && final(self)@ == old(self)@
                },
                IncomingView::Notice { method } => {
                    &&& r matches Routed::Notice { method: m }
                    &&& m@ == method
                    &&& final(self)@ == old(self)@
                },
                IncomingView::Malformed => r is Dropped && final(self)@ == old(self)@,
            },
    {
        match decode(line) {
            Incoming::Response { id, reply } => {
                match self.correlator.resolve(id) {
                    Some(waiter) => {
                        match self.phase {
                            Phase::Connecting => {
                                match &reply {
                                    Reply::Success(_) => {
                                        self.phase = Phase::Ready;
                                    },
                                    Reply::Failure(_) => {
                                        self.phase = Phase::Closed;
                                    },
                                }
                            },
                            _ => {},
                        }
                        assert(old(self)@.phase is Connecting ==> self@.pending.dom()
                            =~= Set::<u64>::empty());
                        let outcome = reply.into_outcome();
                        Routed::Delivered(Delivery { id, waiter, outcome })
                    },
                    None => Routed::Dropped,
                }
            },
            Incoming::Notice { method } => Routed::Notice { method },
            Incoming::Malformed => Routed::Dropped,
        }
    }

    /// Takes the end of the stream from the process, or a failure to read it: every
    /// pending request is told that the connection closed, and the connection is usable
    /// no longer.
    pub fn on_stream_end(&mut self) -> (ds: Vec<Delivery<W>>)
        requires
            old(self).wf(),
        ensures
            final(self).wf(),
            closes_all(ds@, old(self)@.pending),
            final(self)@ == (ClientView {
                phase: phase_after_stream_end(old(self)@.phase),
                next_id: old(self)@.next_id,
                pending: Map::<u64, W>::empty(),
            }),
    {
        let slots = self.correlator.fail_all();
        match self.phase {
            Phase::ShuttingDown => {},
            _ => {
                self.phase = Phase::Closed;
            },
        }
        close_all(slots)
    }

    /// Begins the shutdown: every pending request is told that the connection closed,
    /// and the process is to be terminated. A closed connection stays closed and asks
    /// for nothing.
    pub fn begin_shutdown(&mut self) -> (step: ShutdownStep<W>)
        requires
            old(self).wf(),
        ensures
            final(self).wf(),
            closes_all(step.deliveries@, old(self)@.pending),
            step.terminate == !(old(self)@.phase is Closed),
            final(self)@ == (ClientView {
                phase: phase_after_shutdown(old(self)@.phase),
                next_id: old(self)@.next_id,
                pending: Map::<u64, W>::empty(),
            }),
    {
        let slots = self.correlator.fail_all();
        let terminate = match self.phase {
            Phase::Closed => false,
            _ => {
                self.phase = Phase::ShuttingDown;
                true
            },
        };
        ShutdownStep { deliveries: close_all(slots), terminate }
    }

    /// Ends the shutdown once the process was told to terminate; `exited` says whether it
    /// went within the grace period. The connection is closed either way. On a closed
    /// connection this does nothing and succeeds; before `begin_shutdown` it is refused.
    pub fn finish_shutdown(&mut self, exited: bool) -> (r: Result<(), McpError>)
        requires
            old(self).wf(),
        ensures
            final(self).wf(),
            final(self)@.next_id == old(self)@.next_id,
            final(self)@.pending == old(self)@.pending,
            match old(self)@.phase {
                Phase::ShuttingDown => {
                    &&& final(self)@.phase is Closed
                    &&& r == if exited {
                        Ok::<(), McpError>(())
                    } else {
                        Err::<(), McpError>(McpError::ShutdownError)
                    }
                },
                Phase::Closed => final(self)@.phase is Closed && r is Ok,
                _ => final(self)@.phase == old(self)@.phase && r == Err::<(), McpError>(
                    McpError::NotConnected,
                ),
            },
    {
        match self.phase {
            Phase::ShuttingDown => {
                self.phase = Phase::Closed;
                if exited {
                    Ok(())
                } else {
                    Err(McpError::ShutdownError)
                }
            },
            Phase::Closed => Ok(()),
            _ => Err(McpError::NotConnected),
        }
    }
}

/// What the caller of a connect reports for the outcome of the handshake: success, or
/// that the handshake failed, whatever went wrong.
pub fn handshake_verdict(outcome: Result<Value, McpError>) -> (r: Result<(), McpError>)
    ensures
        outcome is Ok ==> r is Ok,
        outcome is Err ==> r == Err::<(), McpError>(McpError::HandshakeFailed),
{
    match outcome {
        Ok(_) => Ok(()),
        Err(_) => Err(McpError::HandshakeFailed),
    }
}

} // verus!
