//! Decision logic of the serial link worker.
//!
//! The worker loop itself performs blocking I/O and lives outside this
//! crate; each iteration reports what happened — a pending control request,
//! the outcome of a write, the outcome of a read — as one event, and this
//! module decides what follows: which bytes to write, which framed lines to
//! report, when to exit cleanly, and when to report the single terminal
//! connection loss.

use vstd::prelude::*;

verus! {

use crate::framing::{abs_lines, frame_lines, frame_rest, LineBuffer};
use crate::LINE_TERMINATOR;

/// What one iteration of the worker loop observed.
#[derive(Debug, PartialEq, Eq)]
pub enum WorkerEvent {
    /// A pending disconnect request on the control channel (or the channel
    /// is gone): exit cleanly, without a failure event.
    DisconnectRequest,
    /// A pending send request carrying one command, without its terminator.
    SendRequest(Vec<u8>),
    /// The write requested by the previous action failed.
    WriteFailed,
    /// A read returned this chunk of raw bytes.
    ReadData(Vec<u8>),
    /// A read timed out: not an error, the loop just continues.
    ReadTimedOut,
    /// A read failed with a non-timeout error.
    ReadFailed,
}

/// What the loop must do next.
#[derive(Debug, PartialEq, Eq)]
pub enum WorkerAction {
    /// Perform one blocking write of exactly these bytes.
    Write(Vec<u8>),
    /// Report one framed incoming line.
    EmitLine(Vec<u8>),
    /// Report the terminal connection loss, exactly once, after exit.
    EmitConnectionLost,
}

/// The ghost mirror of [`WorkerEvent`], over mathematical sequences.
pub enum WorkerEventModel {
    DisconnectRequest,
    SendRequest(Seq<u8>),
    WriteFailed,
    ReadData(Seq<u8>),
    ReadTimedOut,
    ReadFailed,
}

/// The ghost mirror of [`WorkerAction`], over mathematical sequences.
pub enum WorkerActionModel {
    Write(Seq<u8>),
    EmitLine(Seq<u8>),
    EmitConnectionLost,
}

impl View for WorkerEvent {
    type V = WorkerEventModel;

    open spec fn view(&self) -> WorkerEventModel {
        match self {
            WorkerEvent::DisconnectRequest => WorkerEventModel::DisconnectRequest,
            WorkerEvent::SendRequest(cmd) => WorkerEventModel::SendRequest(cmd@),
            WorkerEvent::WriteFailed => WorkerEventModel::WriteFailed,
            WorkerEvent::ReadData(data) => WorkerEventModel::ReadData(data@),
            WorkerEvent::ReadTimedOut => WorkerEventModel::ReadTimedOut,
            WorkerEvent::ReadFailed => WorkerEventModel::ReadFailed,
        }
    }
}

impl View for WorkerAction {
    type V = WorkerActionModel;

    open spec fn view(&self) -> WorkerActionModel {
        match self {
            WorkerAction::Write(bytes) => WorkerActionModel::Write(bytes@),
            WorkerAction::EmitLine(line) => WorkerActionModel::EmitLine(line@),
            WorkerAction::EmitConnectionLost => WorkerActionModel::EmitConnectionLost,
        }
    }
}

/// The sequence-of-models abstraction of a vector of actions.
pub open spec fn abs_actions(acts: Seq<WorkerAction>) -> Seq<WorkerActionModel> {
    acts.map_values(|a: WorkerAction| a@)
}

/// One line-report action per framed line, in order.
pub open spec fn emit_lines(lines: Seq<Seq<u8>>) -> Seq<WorkerActionModel> {
    lines.map_values(|l: Seq<u8>| WorkerActionModel::EmitLine(l))
}

/// Whether the worker loop is still running, exited cleanly, or exited on a
/// failure.
#[derive(Clone, Copy, Debug, PartialEq, Eq, Structural)]
pub enum WorkerPhase {
    Running,
    Stopped,
    Failed,
}

/// The mathematical model of the worker: its phase and the bytes
/// accumulated since the last complete line.
#[verifier::ext_equal]
pub struct WorkerView {
    pub phase: WorkerPhase,
    pub buf: Seq<u8>,
}

/// The worker's reaction to one observed event: the next state and the
/// actions the loop must perform, in order. A worker that has exited reacts
/// to nothing.
pub open spec fn wstep(w: WorkerView, e: WorkerEventModel) -> (WorkerView, Seq<WorkerActionModel>) {
    if !(w.phase is Running) {
        (w, Seq::empty())
    } else {
        match e {
            WorkerEventModel::DisconnectRequest => (
                WorkerView { phase: WorkerPhase::Stopped, buf: w.buf },
                Seq::empty(),
            ),
            WorkerEventModel::SendRequest(cmd) => (
                w,
                seq![WorkerActionModel::Write(cmd.push(LINE_TERMINATOR))],
            ),
            WorkerEventModel::WriteFailed => (
                WorkerView { phase: WorkerPhase::Failed, buf: w.buf },
                seq![WorkerActionModel::EmitConnectionLost],
            ),
            WorkerEventModel::ReadData(data) => (
                WorkerView { phase: WorkerPhase::Running, buf: frame_rest(w.buf, data) },
                emit_lines(frame_lines(w.buf, data)),
            ),
            WorkerEventModel::ReadTimedOut => (w, Seq::empty()),
            WorkerEventModel::ReadFailed => (
                WorkerView { phase: WorkerPhase::Failed, buf: w.buf },
                seq![WorkerActionModel::EmitConnectionLost],
            ),
        }
    }
}

/// The worker state after a whole sequence of observed events.
pub open spec fn wrun_state(w: WorkerView, es: Seq<WorkerEventModel>) -> WorkerView
    decreases es.len(),
{
    if es.len() == 0 {
        w
    } else {
        wstep(wrun_state(w, es.drop_last()), es.last()).0
    }
}

/// Every action a whole sequence of observed events demands, in order.
pub open spec fn wrun_actions(w: WorkerView, es: Seq<WorkerEventModel>) -> Seq<WorkerActionModel>
    decreases es.len(),
{
    if es.len() == 0 {
        Seq::empty()
    } else {
        wrun_actions(w, es.drop_last()) + wstep(wrun_state(w, es.drop_last()), es.last()).1
    }
}

/// How many connection-loss reports a sequence of actions contains.
pub open spec fn lost_count(acts: Seq<WorkerActionModel>) -> int
    decreases acts.len(),
{
    if acts.len() == 0 {
        0
    } else {
        lost_count(acts.drop_last()) + (
        if acts.last() is EmitConnectionLost {
            1int
        } else {
            0int
        })
    }
}

/// An event that ends the loop: a non-timeout read or write failure, or a
/// disconnect request.
pub open spec fn is_fatal(e: WorkerEventModel) -> bool {
    e is WriteFailed || e is ReadFailed
}

/// Events during which the loop keeps running: no failure, no disconnect
/// request.
pub open spec fn no_stops(es: Seq<WorkerEventModel>) -> bool {
    forall|i: int|
        0 <= i < es.len() ==> !is_fatal(#[trigger] es[i]) && !(es[i] is DisconnectRequest)
}

/// A worker that has exited reacts to nothing more: no state change, no
/// actions, whatever else is observed.
pub proof fn lemma_exited_worker_is_inert(w: WorkerView, es: Seq<WorkerEventModel>)
    requires
        !(w.phase is Running),
    ensures
        wrun_state(w, es) == w,
        wrun_actions(w, es) == Seq::<WorkerActionModel>::empty(),
    decreases es.len(),
{
    if es.len() == 0 {
        assert(wrun_actions(w, es) =~= Seq::<WorkerActionModel>::empty());
    } else {
        lemma_exited_worker_is_inert(w, es.drop_last());
        assert(wrun_actions(w, es) =~= Seq::<WorkerActionModel>::empty());
    }
}

/// Appending the count over a concatenation of action sequences.
pub proof fn lemma_lost_count_concat(a: Seq<WorkerActionModel>, b: Seq<WorkerActionModel>)
    ensures
        lost_count(a + b) == lost_count(a) + lost_count(b),
    decreases b.len(),
{
    if b.len() == 0 {
        assert(a + b =~= a);
    } else {
        lemma_lost_count_concat(a, b.drop_last());
        assert((a + b).drop_last() =~= a + b.drop_last());
        assert((a + b).last() == b.last());
    }
}

/// A run over concatenated events is the run over the first part followed by
/// a run over the second, from where the first left off.
pub proof fn lemma_wrun_concat(w: WorkerView, a: Seq<WorkerEventModel>, b: Seq<WorkerEventModel>)
    ensures
        wrun_state(w, a + b) == wrun_state(wrun_state(w, a), b),
        wrun_actions(w, a + b) == wrun_actions(w, a) + wrun_actions(wrun_state(w, a), b),
    decreases b.len(),
{
    if b.len() == 0 {
        assert(a + b =~= a);
        assert(wrun_actions(w, a) + wrun_actions(wrun_state(w, a), b) =~= wrun_actions(w, a));
    } else {
        lemma_wrun_concat(w, a, b.drop_last());
        assert((a + b).drop_last() =~= a + b.drop_last());
        assert((a + b).last() == b.last());
        assert(wrun_actions(w, a + b) =~= wrun_actions(w, a) + wrun_actions(
            wrun_state(w, a),
            b,
        ));
    }
}

/// The count over a single action.
pub proof fn lemma_lost_count_singleton(a: WorkerActionModel)
    ensures
        lost_count(seq![a]) == (
        if a is EmitConnectionLost {
            1int
        } else {
            0int
        }),
{
    assert(seq![a].drop_last() =~= Seq::<WorkerActionModel>::empty());
    assert(lost_count(Seq::<WorkerActionModel>::empty()) == 0);
    assert(seq![a].last() == a);
}

/// Line reports contain no connection loss.
pub proof fn lemma_emit_lines_no_lost(lines: Seq<Seq<u8>>)
    ensures
        lost_count(emit_lines(lines)) == 0,
    decreases lines.len(),
{
    if lines.len() == 0 {
        assert(emit_lines(lines) =~= Seq::<WorkerActionModel>::empty());
    } else {
        lemma_emit_lines_no_lost(lines.drop_last());
        assert(emit_lines(lines).drop_last() =~= emit_lines(lines.drop_last()));
        assert(emit_lines(lines).last() == WorkerActionModel::EmitLine(lines.last()));
    }
}

/// Over any run that starts with the loop running, a connection loss is
/// reported exactly when the run ends in failure — so never more than once.
pub proof fn lemma_lost_reported_iff_failed(w: WorkerView, es: Seq<WorkerEventModel>)
    requires
        w.phase is Running,
    ensures
        lost_count(wrun_actions(w, es)) == (
        if wrun_state(w, es).phase is Failed {
            1int
        } else {
            0int
        }),
    decreases es.len(),
{
    if es.len() > 0 {
        lemma_lost_reported_iff_failed(w, es.drop_last());
        let w1 = wrun_state(w, es.drop_last());
        let step_acts = wstep(w1, es.last()).1;
        lemma_lost_count_concat(wrun_actions(w, es.drop_last()), step_acts);
        assert(lost_count(Seq::<WorkerActionModel>::empty()) == 0);
        if w1.phase is Running {
            match es.last() {
                WorkerEventModel::SendRequest(cmd) => {
                    lemma_lost_count_singleton(
                        WorkerActionModel::Write(cmd.push(LINE_TERMINATOR)),
                    );
                },
                WorkerEventModel::WriteFailed => {
                    lemma_lost_count_singleton(WorkerActionModel::EmitConnectionLost);
                },
                WorkerEventModel::ReadFailed => {
                    lemma_lost_count_singleton(WorkerActionModel::EmitConnectionLost);
                },
                WorkerEventModel::ReadData(data) => {
                    lemma_emit_lines_no_lost(frame_lines(w1.buf, data));
                },
                _ => {
                },
            }
        }
    }
}

/// While no failure and no disconnect request are observed, the loop keeps
/// running and reports no connection loss.
pub proof fn lemma_quiet_run_keeps_running(w: WorkerView, es: Seq<WorkerEventModel>)
    requires
        w.phase is Running,
        no_stops(es),
    ensures
        wrun_state(w, es).phase is Running,
        lost_count(wrun_actions(w, es)) == 0,
    decreases es.len(),
{
    if es.len() > 0 {
        assert(no_stops(es.drop_last())) by {
            assert(forall|i: int|
                0 <= i < es.len() - 1 ==> es.drop_last()[i] == #[trigger] es[i]);
        }
        lemma_quiet_run_keeps_running(w, es.drop_last());
        assert(!is_fatal(es[es.len() - 1]) && !(es[es.len() - 1] is DisconnectRequest));
        lemma_lost_reported_iff_failed(w, es);
    }
}

/// A non-timeout read or write failure after any quiet stretch of events is
/// terminal: the loop exits in failure, exactly one connection loss is
/// reported — none before the failure, none after it, whatever else is
/// observed later.
pub proof fn lemma_failure_reports_loss_once(
    w: WorkerView,
    quiet: Seq<WorkerEventModel>,
    failure: WorkerEventModel,
    later: Seq<WorkerEventModel>,
)
    requires
        w.phase is Running,
        no_stops(quiet),
        is_fatal(failure),
    ensures
        lost_count(wrun_actions(w, quiet)) == 0,
        wrun_state(w, quiet.push(failure) + later).phase is Failed,
        lost_count(wrun_actions(w, quiet.push(failure) + later)) == 1,
{
    lemma_quiet_run_keeps_running(w, quiet);
    let after_failure = wrun_state(w, quiet.push(failure));
    assert(quiet.push(failure).drop_last() =~= quiet);
    assert(after_failure.phase is Failed);
    lemma_wrun_concat(w, quiet.push(failure), later);
    lemma_exited_worker_is_inert(after_failure, later);
    lemma_lost_reported_iff_failed(w, quiet.push(failure) + later);
}

/// A disconnect request after any quiet stretch of events ends the loop
/// cleanly: no connection loss is ever reported, whatever else is observed
/// later.
pub proof fn lemma_disconnect_is_clean(
    w: WorkerView,
    quiet: Seq<WorkerEventModel>,
    later: Seq<WorkerEventModel>,
)
    requires
        w.phase is Running,
        no_stops(quiet),
    ensures
        wrun_state(w, quiet.push(WorkerEventModel::DisconnectRequest) + later).phase is Stopped,
        lost_count(
            wrun_actions(w, quiet.push(WorkerEventModel::DisconnectRequest) + later),
        ) == 0,
{
    lemma_quiet_run_keeps_running(w, quiet);
    let stopped = wrun_state(w, quiet.push(WorkerEventModel::DisconnectRequest));
    assert(quiet.push(WorkerEventModel::DisconnectRequest).drop_last() =~= quiet);
    assert(stopped.phase is Stopped);
    lemma_wrun_concat(w, quiet.push(WorkerEventModel::DisconnectRequest), later);
    lemma_exited_worker_is_inert(stopped, later);
    lemma_lost_reported_iff_failed(w, quiet.push(WorkerEventModel::DisconnectRequest) + later);
}

/// The worker's decision state: its phase and the line accumulator. The
/// hardware handle stays with the loop outside.
pub struct LinkWorker {
    phase: WorkerPhase,
    buf: LineBuffer,
}

impl View for LinkWorker {
    type V = WorkerView;

    closed spec fn view(&self) -> WorkerView {
        WorkerView { phase: self.phase, buf: self.buf@ }
    }
}

impl LinkWorker {
    /// A fresh worker for a newly opened port: running, with an empty
    /// accumulator.
    pub fn new() -> (r: LinkWorker)
        ensures
            r@ == (WorkerView { phase: WorkerPhase::Running, buf: Seq::<u8>::empty() }),
    {
        LinkWorker { phase: WorkerPhase::Running, buf: LineBuffer::new() }
    }

    /// Whether the loop should keep going.
    pub fn is_running(&self) -> (r: bool)
        ensures
            r == (self@.phase is Running),
    {
        self.phase == WorkerPhase::Running
    }

    /// The current phase.
    pub fn phase(&self) -> (p: WorkerPhase)
        ensures
            p == self@.phase,
    {
        self.phase
    }

    /// Reacts to one observed event, returning the actions the loop must
    /// perform, in order.
    pub fn step(&mut self, e: WorkerEvent) -> (acts: Vec<WorkerAction>)
        ensures
            final(self)@ == wstep(old(self)@, e@).0,
            abs_actions(acts@) == wstep(old(self)@, e@).1,
    {
        let mut acts: Vec<WorkerAction> = Vec::new();
        if self.phase != WorkerPhase::Running {
            proof {
                assert(abs_actions(acts@) =~= Seq::<WorkerActionModel>::empty());
            }
            return acts;
        }
        match e {
            WorkerEvent::DisconnectRequest => {
                self.phase = WorkerPhase::Stopped;
                proof {
                    assert(abs_actions(acts@) =~= Seq::<WorkerActionModel>::empty());
                }
            },
            WorkerEvent::SendRequest(cmd) => {
                let mut framed = cmd;
                framed.push(LINE_TERMINATOR);
                acts.push(WorkerAction::Write(framed));
                proof {
                    assert(abs_actions(acts@) =~= wstep(old(self)@, e@).1);
                }
            },
            WorkerEvent::WriteFailed => {
                self.phase = WorkerPhase::Failed;
                acts.push(WorkerAction::EmitConnectionLost);
                proof {
                    assert(abs_actions(acts@) =~= wstep(old(self)@, e@).1);
                }
            },
            WorkerEvent::ReadData(data) => {
                let mut lines = self.buf.push_bytes(data.as_slice());
                let ghost all_lines = abs_lines(lines@);
                proof {
                    assert(abs_actions(acts@) + emit_lines(abs_lines(lines@)) =~= emit_lines(
                        all_lines,
                    ));
                }
                while lines.len() > 0
                    invariant
                        abs_actions(acts@) + emit_lines(abs_lines(lines@)) == emit_lines(all_lines),
                    decreases lines.len(),
                {
                    let ghost lines_before = lines@;
                    let ghost acts_before = acts@;
                    let line = lines.remove(0);
                    acts.push(WorkerAction::EmitLine(line));
                    proof {
                        assert(abs_lines(lines_before) =~= abs_lines(lines@).insert(
                            0,
                            line@,
                        ));
                        assert(abs_actions(acts@) =~= abs_actions(acts_before).push(
                            WorkerActionModel::EmitLine(line@),
                        ));
                        assert(abs_actions(acts@) + emit_lines(abs_lines(lines@)) =~= emit_lines(
                            all_lines,
                        ));
                    }
                }
                proof {
                    assert(abs_actions(acts@) =~= emit_lines(all_lines));
                }
            },
            WorkerEvent::ReadTimedOut => {
                proof {
                    assert(abs_actions(acts@) =~= Seq::<WorkerActionModel>::empty());
                }
            },
            WorkerEvent::ReadFailed => {
                self.phase = WorkerPhase::Failed;
                acts.push(WorkerAction::EmitConnectionLost);
                proof {
                    assert(abs_actions(acts@) =~= wstep(old(self)@, e@).1);
                }
            },
        }
        acts
    }
}

} // verus!
