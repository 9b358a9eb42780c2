//! The connection controller: lifecycle state machine, FIFO command queue,
//! and the acknowledgment latch that enforces the single-outstanding-command
//! protocol.
//!
//! A command may be written to the device only while no earlier command is
//! still unacknowledged. Each incoming line whose first two characters are
//! "ok" clears the latch and lets the next queued command go out; any payload
//! after the "ok" is routed to a report category by its first character.

use vstd::prelude::*;
use vstd::slice::{slice_subrange, slice_to_vec};

verus! {

use std::collections::VecDeque;

/// The controller's lifecycle state. The initial state is `Disconnected`,
/// and it is re-entered on every explicit disconnect and on every reported
/// connection loss.
#[derive(Clone, Copy, Debug, PartialEq, Eq, Structural)]
pub enum ConnState {
    Disconnected,
    ConnectedIdle,
    AwaitingAck,
}

/// The report category selected by the first character of an acknowledgment
/// payload: 'T' selects the temperature report, 'X' the position report, and
/// everything else selects none.
#[derive(Clone, Copy, Debug, PartialEq, Eq, Structural)]
pub enum RouteTarget {
    Temperature,
    Position,
    NoTarget,
}

/// The mathematical model of a controller: its lifecycle state and the
/// queued commands in FIFO order.
#[verifier::ext_equal]
pub struct CtrlView {
    pub state: ConnState,
    pub queue: Seq<Seq<u8>>,
}

/// The byte 'o', the first character of an acknowledgment.
pub const BYTE_O: u8 = 0x6f;

/// The byte 'k', the second character of an acknowledgment.
pub const BYTE_K: u8 = 0x6b;

/// The byte 'T', the payload prefix that selects the temperature report.
pub const BYTE_T: u8 = 0x54;

/// The byte 'X', the payload prefix that selects the position report.
pub const BYTE_X: u8 = 0x58;

/// Whether a received line is an acknowledgment: its first two characters
/// are the literal "ok". Shorter lines never match.
pub open spec fn is_ack(line: Seq<u8>) -> bool {
    line.len() >= 2 && line[0] == BYTE_O && line[1] == BYTE_K
}

/// The report category an acknowledgment payload selects, by its first
/// character.
pub open spec fn route_of(payload: Seq<u8>) -> RouteTarget {
    if payload.len() == 0 {
        RouteTarget::NoTarget
    } else if payload[0] == BYTE_T {
        RouteTarget::Temperature
    } else if payload[0] == BYTE_X {
        RouteTarget::Position
    } else {
        RouteTarget::NoTarget
    }
}

impl CtrlView {
    /// The queue is non-empty only while an acknowledgment is outstanding:
    /// every transition into `Disconnected` or into `ConnectedIdle` either
    /// clears the queue or drains it through dispatch.
    pub open spec fn wf(self) -> bool {
        !(self.state is AwaitingAck) ==> self.queue.len() == 0
    }

    /// A fresh transition into the connected state: queue cleared,
    /// acknowledgment latch reset.
    pub open spec fn after_connect(self) -> CtrlView {
        CtrlView { state: ConnState::ConnectedIdle, queue: Seq::empty() }
    }

    /// Any transition into the disconnected state: queue cleared,
    /// acknowledgment latch reset, so no stale command survives a session.
    pub open spec fn after_disconnect(self) -> CtrlView {
        CtrlView { state: ConnState::Disconnected, queue: Seq::empty() }
    }

    /// Dispatch: when connected with no acknowledgment outstanding and the
    /// queue is non-empty, the head is removed and written and the latch
    /// closes; in every other case nothing happens.
    pub open spec fn after_dispatch(self) -> (CtrlView, Option<Seq<u8>>) {
        if self.state is ConnectedIdle && self.queue.len() > 0 {
            (
                CtrlView { state: ConnState::AwaitingAck, queue: self.queue.drop_first() },
                Some(self.queue.first()),
            )
        } else {
            (self, None)
        }
    }

    /// Enqueue: while disconnected the command is silently discarded;
    /// otherwise it is appended to the tail and dispatch runs once.
    pub open spec fn after_enqueue(self, cmd: Seq<u8>) -> (CtrlView, Option<Seq<u8>>) {
        if self.state is Disconnected {
            (self, None)
        } else {
            CtrlView { state: self.state, queue: self.queue.push(cmd) }.after_dispatch()
        }
    }

    /// Evaluation of a received line: an acknowledgment while one is
    /// outstanding clears the latch and dispatch runs once; any other line,
    /// and any line while the latch is idle, is informational only and
    /// changes nothing.
    pub open spec fn after_line(self, line: Seq<u8>) -> (CtrlView, Option<Seq<u8>>) {
        if self.state is AwaitingAck && is_ack(line) {
            CtrlView { state: ConnState::ConnectedIdle, queue: self.queue }.after_dispatch()
        } else {
            (self, None)
        }
    }

    /// The payload carried by a received line, when that line is an
    /// acknowledgment that clears an outstanding latch: everything after the
    /// two-character prefix. Every other line carries none.
    pub open spec fn line_payload(self, line: Seq<u8>) -> Seq<u8> {
        if self.state is AwaitingAck && is_ack(line) {
            line.skip(2)
        } else {
            Seq::empty()
        }
    }
}

/// Runtime check matching [`is_ack`].
pub fn line_is_ack(line: &[u8]) -> (r: bool)
    ensures
        r == is_ack(line@),
{
    line.len() >= 2 && line[0] == BYTE_O && line[1] == BYTE_K
}

/// Runtime lookup matching [`route_of`].
pub fn route_payload(payload: &[u8]) -> (r: RouteTarget)
    ensures
        r == route_of(payload@),
{
    if payload.len() == 0 {
        RouteTarget::NoTarget
    } else if payload[0] == BYTE_T {
        RouteTarget::Temperature
    } else if payload[0] == BYTE_X {
        RouteTarget::Position
    } else {
        RouteTarget::NoTarget
    }
}

/// Everything a received line causes: the next command to write if an
/// acknowledgment cleared the latch, and the report category and payload
/// selected by the acknowledgment's trailing text.
pub struct LineOutcome {
    pub write: Option<Vec<u8>>,
    pub report: RouteTarget,
    pub payload: Vec<u8>,
}

/// The connection controller. It owns the FIFO command queue and the
/// acknowledgment latch; the caller performs the writes it hands out.
pub struct Controller {
    state: ConnState,
    queue: VecDeque<Vec<u8>>,
}

impl View for Controller {
    type V = CtrlView;

    closed spec fn view(&self) -> CtrlView {
        CtrlView { state: self.state, queue: self.queue.deep_view() }
    }
}

impl Controller {
    /// A fresh controller: disconnected, with an empty queue.
    pub fn new() -> (r: Controller)
        ensures
            r@ == (CtrlView { state: ConnState::Disconnected, queue: Seq::<Seq<u8>>::empty() }),
            r@.wf(),
    {
        let r = Controller { state: ConnState::Disconnected, queue: VecDeque::new() };
        proof {
            assert(r@.queue =~= Seq::<Seq<u8>>::empty());
        }
        r
    }

    /// The current lifecycle state.
    pub fn state(&self) -> (s: ConnState)
        ensures
            s == self@.state,
    {
        self.state
    }

    /// The number of commands waiting in the queue.
    pub fn queue_len(&self) -> (n: usize)
        ensures
            n == self@.queue.len(),
    {
        self.queue.len()
    }

    /// A successful open of the port: the session starts connected and idle,
    /// with the queue cleared and the acknowledgment latch reset.
    pub fn connect(&mut self)
        ensures
            final(self)@ == old(self)@.after_connect(),
            final(self)@.wf(),
    {
        self.state = ConnState::ConnectedIdle;
        self.queue.clear();
        proof {
            assert(self@.queue =~= Seq::<Seq<u8>>::empty());
        }
    }

    /// An explicit disconnect, or a reported connection loss: the session
    /// ends, the queue is cleared and the acknowledgment latch reset, so no
    /// stale command is replayed across sessions.
    pub fn disconnect(&mut self)
        ensures
            final(self)@ == old(self)@.after_disconnect(),
            final(self)@.wf(),
    {
        self.state = ConnState::Disconnected;
        self.queue.clear();
        proof {
            assert(self@.queue =~= Seq::<Seq<u8>>::empty());
        }
    }

    /// Sends the queue head to the writer when connected, idle and
    /// non-empty; a no-op while an acknowledgment is outstanding, while
    /// disconnected, or while the queue is empty. The returned command, if
    /// any, is what must be written to the device.
    pub fn dispatch(&mut self) -> (w: Option<Vec<u8>>)
        ensures
            final(self)@ == old(self)@.after_dispatch().0,
            w.deep_view() == old(self)@.after_dispatch().1,
    {
        if self.state == ConnState::ConnectedIdle {
            match self.queue.pop_front() {
                Some(cmd) => {
                    self.state = ConnState::AwaitingAck;
                    proof {
                        assert(self@.queue =~~= old(self)@.queue.drop_first());
                    }
                    Some(cmd)
                },
                None => None,
            }
        } else {
            None
        }
    }

    /// Appends a command to the queue tail unless disconnected (then it is
    /// silently discarded — there is no session to use), and dispatches
    /// once. The returned command, if any, is what must be written.
    pub fn enqueue(&mut self, cmd: Vec<u8>) -> (w: Option<Vec<u8>>)
        requires
            old(self)@.wf(),
        ensures
            final(self)@ == old(self)@.after_enqueue(cmd@).0,
            w.deep_view() == old(self)@.after_enqueue(cmd@).1,
            final(self)@.wf(),
    {
        if self.state == ConnState::Disconnected {
            None
        } else {
            let ghost cmd_view = cmd@;
            self.queue.push_back(cmd);
            proof {
                assert(self@.queue =~~= old(self)@.queue.push(cmd_view));
            }
            self.dispatch()
        }
    }

    /// Evaluates one received line. An acknowledgment while one is
    /// outstanding clears the latch, routes its payload, and dispatches the
    /// next queued command; every other line leaves the controller
    /// untouched and is informational only.
    pub fn on_line(&mut self, line: &[u8]) -> (r: LineOutcome)
        requires
            old(self)@.wf(),
        ensures
            final(self)@ == old(self)@.after_line(line@).0,
            r.write.deep_view() == old(self)@.after_line(line@).1,
            r.report == route_of(old(self)@.line_payload(line@)),
            r.payload@ == old(self)@.line_payload(line@),
            final(self)@.wf(),
    {
        if self.state == ConnState::AwaitingAck && line_is_ack(line) {
            self.state = ConnState::ConnectedIdle;
            let payload = slice_to_vec(slice_subrange(line, 2, line.len()));
            proof {
                assert(payload@ =~= line@.skip(2));
            }
            let report = route_payload(payload.as_slice());
            let write = self.dispatch();
            LineOutcome { write, report, payload }
        } else {
            LineOutcome { write: None, report: RouteTarget::NoTarget, payload: Vec::new() }
        }
    }
}

} // verus!
