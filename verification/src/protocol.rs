//! Protocol-level laws of the controller.
//!
//! A session is described as a sequence of events fed to the controller
//! model; the laws proved here pin down the flow-control discipline: a
//! command enqueued while disconnected is discarded, writes happen in
//! enqueue order, at most one command is outstanding at any time, and lines
//! received while the latch is idle change nothing.

use vstd::prelude::*;

verus! {

use crate::controller::{is_ack, ConnState, CtrlView};

/// One input to the controller: a successful open, a disconnect (explicit or
/// reported loss), a command handed in by a collaborator, or a line received
/// from the device.
pub enum CtrlEvent {
    Opened,
    Closed,
    Enqueue(Seq<u8>),
    Line(Seq<u8>),
}

/// The controller state after one event.
pub open spec fn step(c: CtrlView, e: CtrlEvent) -> (CtrlView, Option<Seq<u8>>) {
    match e {
        CtrlEvent::Opened => (c.after_connect(), None),
        CtrlEvent::Closed => (c.after_disconnect(), None),
        CtrlEvent::Enqueue(cmd) => c.after_enqueue(cmd),
        CtrlEvent::Line(l) => c.after_line(l),
    }
}

/// The commands one event writes to the device: one when the event
/// dispatched a command, none otherwise.
pub open spec fn step_writes(c: CtrlView, e: CtrlEvent) -> Seq<Seq<u8>> {
    match step(c, e).1 {
        Some(w) => seq![w],
        None => Seq::empty(),
    }
}

/// The commands one event accepts into the session: an enqueue while
/// connected accepts its command; everything else accepts none.
pub open spec fn step_accepted(c: CtrlView, e: CtrlEvent) -> Seq<Seq<u8>> {
    match e {
        CtrlEvent::Enqueue(cmd) => {
            if c.state is Disconnected {
                Seq::empty()
            } else {
                seq![cmd]
            }
        },
        _ => Seq::empty(),
    }
}

/// The controller state after a whole sequence of events.
pub open spec fn run_state(c: CtrlView, es: Seq<CtrlEvent>) -> CtrlView
    decreases es.len(),
{
    if es.len() == 0 {
        c
    } else {
        step(run_state(c, es.drop_last()), es.last()).0
    }
}

/// Every command written to the device over a sequence of events, in order.
pub open spec fn run_writes(c: CtrlView, es: Seq<CtrlEvent>) -> Seq<Seq<u8>>
    decreases es.len(),
{
    if es.len() == 0 {
        Seq::empty()
    } else {
        run_writes(c, es.drop_last()) + step_writes(run_state(c, es.drop_last()), es.last())
    }
}

/// Every command accepted into the session over a sequence of events, in
/// enqueue order.
pub open spec fn run_accepted(c: CtrlView, es: Seq<CtrlEvent>) -> Seq<Seq<u8>>
    decreases es.len(),
{
    if es.len() == 0 {
        Seq::empty()
    } else {
        run_accepted(c, es.drop_last()) + step_accepted(run_state(c, es.drop_last()), es.last())
    }
}

/// Events that stay within one session: no open, no disconnect.
pub open spec fn session_only(es: Seq<CtrlEvent>) -> bool {
    forall|i: int| 0 <= i < es.len() ==> !((#[trigger] es[i]) is Opened) && !(es[i] is Closed)
}

/// The number of acknowledgment lines in a sequence of events.
pub open spec fn ack_count(es: Seq<CtrlEvent>) -> int
    decreases es.len(),
{
    if es.len() == 0 {
        0
    } else {
        ack_count(es.drop_last()) + (
        if es.last() matches CtrlEvent::Line(l) && is_ack(l) {
            1int
        } else {
            0int
        })
    }
}

/// One while an acknowledgment is outstanding, zero otherwise: the command
/// the open latch still owes an acknowledgment for.
pub open spec fn latch_debt(c: CtrlView) -> int {
    if c.state is AwaitingAck {
        1
    } else {
        0
    }
}

/// Every event preserves the controller's well-formedness.
pub proof fn lemma_step_preserves_wf(c: CtrlView, e: CtrlEvent)
    requires
        c.wf(),
    ensures
        step(c, e).0.wf(),
{
}

/// A whole run preserves the controller's well-formedness.
pub proof fn lemma_run_preserves_wf(c: CtrlView, es: Seq<CtrlEvent>)
    requires
        c.wf(),
    ensures
        run_state(c, es).wf(),
    decreases es.len(),
{
    if es.len() > 0 {
        lemma_run_preserves_wf(c, es.drop_last());
        lemma_step_preserves_wf(run_state(c, es.drop_last()), es.last());
    }
}

/// A command enqueued while disconnected is silently discarded: nothing is
/// written, the state does not change, and the queue remains empty.
pub proof fn lemma_enqueue_while_disconnected(c: CtrlView, cmd: Seq<u8>)
    requires
        c.wf(),
        c.state is Disconnected,
    ensures
        c.after_enqueue(cmd).0 == c,
        c.after_enqueue(cmd).1 is None,
        c.after_enqueue(cmd).0.queue.len() == 0,
{
}

/// A line received while no acknowledgment is outstanding — in particular an
/// "ok" while the latch is idle — changes neither the state nor the queue and
/// dispatches nothing.
pub proof fn lemma_line_while_not_awaiting(c: CtrlView, line: Seq<u8>)
    requires
        !(c.state is AwaitingAck),
    ensures
        c.after_line(line).0 == c,
        c.after_line(line).1 is None,
{
}

/// A line that is not an acknowledgment is informational only, even while an
/// acknowledgment is outstanding: nothing changes.
pub proof fn lemma_non_ack_line(c: CtrlView, line: Seq<u8>)
    requires
        !is_ack(line),
    ensures
        c.after_line(line).0 == c,
        c.after_line(line).1 is None,
{
}

/// Within one session, the writes performed so far followed by the commands
/// still queued are exactly the queue at the start of the run followed by
/// every command accepted since, in order: nothing is lost, duplicated or
/// reordered on the way from the queue to the device.
pub proof fn lemma_session_accounting(c: CtrlView, es: Seq<CtrlEvent>)
    requires
        c.wf(),
        session_only(es),
    ensures
        run_state(c, es).wf(),
        run_writes(c, es) + run_state(c, es).queue == c.queue + run_accepted(c, es),
    decreases es.len(),
{
    if es.len() == 0 {
        assert(run_writes(c, es) + run_state(c, es).queue =~= c.queue + run_accepted(c, es));
    } else {
        let prefix = es.drop_last();
        let e = es.last();
        assert(session_only(prefix)) by {
            assert(forall|i: int|
                0 <= i < prefix.len() ==> prefix[i] == #[trigger] es[i]);
        }
        lemma_session_accounting(c, prefix);
        let c1 = run_state(c, prefix);
        let w1 = run_writes(c, prefix);
        let a1 = run_accepted(c, prefix);
        let c2 = run_state(c, es);
        assert(es[es.len() - 1] == e);
        assert(run_writes(c, es) == w1 + step_writes(c1, e));
        assert(run_accepted(c, es) == a1 + step_accepted(c1, e));
        match e {
            CtrlEvent::Enqueue(cmd) => {
                if c1.state is Disconnected {
                    assert((w1 + Seq::<Seq<u8>>::empty()) + c2.queue =~= w1 + c1.queue);
                    assert(c.queue + (a1 + Seq::<Seq<u8>>::empty()) =~= c.queue + a1);
                } else if c1.state is ConnectedIdle {
                    // wf: the queue was empty, so the new command is the
                    // head and is dispatched at once, leaving it empty.
                    assert(c1.queue.push(cmd).drop_first() =~= Seq::<Seq<u8>>::empty());
                    assert((w1 + seq![cmd]) + c2.queue =~= (w1 + c1.queue) + seq![cmd]);
                    assert(c.queue + (a1 + seq![cmd]) =~= (c.queue + a1) + seq![cmd]);
                } else {
                    // Awaiting an acknowledgment: the command is buffered only.
                    assert((w1 + Seq::<Seq<u8>>::empty()) + c2.queue =~= (w1 + c1.queue) + seq![
                        cmd,
                    ]);
                    assert(c.queue + (a1 + seq![cmd]) =~= (c.queue + a1) + seq![cmd]);
                }
            },
            CtrlEvent::Line(l) => {
                if c1.state is AwaitingAck && is_ack(l) && c1.queue.len() > 0 {
                    // The latch clears and the queue head is dispatched.
                    assert((w1 + seq![c1.queue.first()]) + c2.queue =~= w1 + c1.queue);
                    assert(c.queue + (a1 + Seq::<Seq<u8>>::empty()) =~= c.queue + a1);
                } else {
                    assert((w1 + Seq::<Seq<u8>>::empty()) + c2.queue =~= w1 + c1.queue);
                    assert(c.queue + (a1 + Seq::<Seq<u8>>::empty()) =~= c.queue + a1);
                }
            },
            CtrlEvent::Opened => {
                assert(false);
            },
            CtrlEvent::Closed => {
                assert(false);
            },
        }
    }
}

/// Write order equals enqueue order: within one session started with an
/// empty queue, the sequence of commands written to the device is a prefix
/// of the sequence of commands accepted by enqueue.
pub proof fn lemma_write_order(c: CtrlView, es: Seq<CtrlEvent>)
    requires
        c.wf(),
        c.queue.len() == 0,
        session_only(es),
    ensures
        run_writes(c, es).len() <= run_accepted(c, es).len(),
        run_writes(c, es) == run_accepted(c, es).take(run_writes(c, es).len() as int),
{
    lemma_session_accounting(c, es);
    let w = run_writes(c, es);
    let a = run_accepted(c, es);
    assert(c.queue + a =~= a);
    assert(w == a.take(w.len() as int)) by {
        assert(w + run_state(c, es).queue =~= a);
        assert(w =~= a.take(w.len() as int));
    }
}

/// No command is written before an acknowledgment of the one before it:
/// over any session, the number of writes never exceeds the number of
/// acknowledgment lines plus one for the latch left open at the end.
pub proof fn lemma_one_write_per_ack(c: CtrlView, es: Seq<CtrlEvent>)
    requires
        session_only(es),
    ensures
        run_writes(c, es).len() + latch_debt(c) <= ack_count(es) + latch_debt(run_state(c, es)),
    decreases es.len(),
{
    if es.len() > 0 {
        let prefix = es.drop_last();
        assert(session_only(prefix)) by {
            assert(forall|i: int|
                0 <= i < prefix.len() ==> prefix[i] == #[trigger] es[i]);
        }
        lemma_one_write_per_ack(c, prefix);
    }
}

/// The events of a burst of enqueues with no replies in between.
pub open spec fn enqueue_events(cmds: Seq<Seq<u8>>) -> Seq<CtrlEvent> {
    cmds.map_values(|cmd: Seq<u8>| CtrlEvent::Enqueue(cmd))
}

/// With the latch idle and no replies arriving, any number of enqueued
/// commands cause exactly one write: the first command enqueued. The rest
/// wait in the queue in order.
pub proof fn lemma_burst_writes_first_only(c: CtrlView, cmds: Seq<Seq<u8>>)
    requires
        c.wf(),
        c.state is ConnectedIdle,
        cmds.len() >= 1,
    ensures
        run_writes(c, enqueue_events(cmds)) == seq![cmds[0]],
        run_state(c, enqueue_events(cmds)).state is AwaitingAck,
        run_state(c, enqueue_events(cmds)).queue == cmds.drop_first(),
    decreases cmds.len(),
{
    let es = enqueue_events(cmds);
    assert(es.len() == cmds.len());
    assert(es.last() == CtrlEvent::Enqueue(cmds.last()));
    if cmds.len() == 1 {
        assert(es.drop_last() =~= Seq::<CtrlEvent>::empty());
        assert(run_state(c, es.drop_last()) == c);
        assert(c.queue.push(cmds[0]).first() == cmds[0]);
        assert(run_writes(c, es.drop_last()) == Seq::<Seq<u8>>::empty());
        assert(run_writes(c, es) =~= seq![cmds[0]]);
        assert(run_state(c, es).queue =~= cmds.drop_first());
    } else {
        let shorter = cmds.drop_last();
        lemma_burst_writes_first_only(c, shorter);
        assert(es.drop_last() =~= enqueue_events(shorter));
        assert(run_writes(c, es) =~= seq![cmds[0]]) by {
            assert(shorter[0] == cmds[0]);
            assert(run_writes(c, es.drop_last()) == seq![cmds[0]]);
        }
        assert(run_state(c, es).queue =~= cmds.drop_first()) by {
            assert(run_state(c, es.drop_last()).queue == shorter.drop_first());
        }
    }
}

} // verus!
