//! End-to-end scenarios driving the controller and the worker together, the
//! way the surrounding program does: the controller hands dispatched
//! commands to the worker as send requests, and worker line reports feed the
//! controller's acknowledgment evaluation.

use gcode_link::controller::{ConnState, Controller};
use gcode_link::worker::{LinkWorker, WorkerAction, WorkerEvent};

/// Hands one dispatched command to the worker and returns the bytes the
/// worker asks to have written to the transport.
fn transport_write(worker: &mut LinkWorker, cmd: Vec<u8>) -> Vec<u8> {
    let acts = worker.step(WorkerEvent::SendRequest(cmd));
    assert_eq!(acts.len(), 1);
    match acts.into_iter().next().unwrap() {
        WorkerAction::Write(bytes) => bytes,
        other => panic!("expected a write, got {:?}", other),
    }
}

#[test]
fn connect_send_ack_cycle() {
    // Connect, enqueue "G28": the transport receives "G28\n". After "ok\n"
    // arrives the latch returns to idle and nothing more is written.
    let mut ctrl = Controller::new();
    let mut worker = LinkWorker::new();
    ctrl.connect();

    let dispatched = ctrl.enqueue(b"G28".to_vec()).expect("first command dispatches at once");
    let written = transport_write(&mut worker, dispatched);
    assert_eq!(written, b"G28\n".to_vec());

    // The device acknowledges; the worker frames the reply line.
    let acts = worker.step(WorkerEvent::ReadData(b"ok\n".to_vec()));
    assert_eq!(acts, vec![WorkerAction::EmitLine(b"ok".to_vec())]);
    let outcome = ctrl.on_line(b"ok");
    assert!(outcome.write.is_none());
    assert_eq!(ctrl.state(), ConnState::ConnectedIdle);
    assert_eq!(ctrl.queue_len(), 0);
}

#[test]
fn second_command_is_written_only_after_ack() {
    // Enqueue "G1 X1" then "G1 X2" before any reply: only "G1 X1\n" is
    // written; "G1 X2\n" follows once "ok\n" arrives.
    let mut ctrl = Controller::new();
    let mut worker = LinkWorker::new();
    ctrl.connect();

    let mut written: Vec<Vec<u8>> = Vec::new();
    if let Some(cmd) = ctrl.enqueue(b"G1 X1".to_vec()) {
        written.push(transport_write(&mut worker, cmd));
    }
    if let Some(cmd) = ctrl.enqueue(b"G1 X2".to_vec()) {
        written.push(transport_write(&mut worker, cmd));
    }
    assert_eq!(written, vec![b"G1 X1\n".to_vec()]);

    let acts = worker.step(WorkerEvent::ReadData(b"ok\n".to_vec()));
    assert_eq!(acts, vec![WorkerAction::EmitLine(b"ok".to_vec())]);
    let outcome = ctrl.on_line(b"ok");
    if let Some(cmd) = outcome.write {
        written.push(transport_write(&mut worker, cmd));
    }
    assert_eq!(written, vec![b"G1 X1\n".to_vec(), b"G1 X2\n".to_vec()]);
}

#[test]
fn read_failure_disconnects_with_empty_queue() {
    // A non-timeout read error fires exactly one connection-loss report;
    // the controller ends disconnected with an empty queue.
    let mut ctrl = Controller::new();
    let mut worker = LinkWorker::new();
    ctrl.connect();
    let dispatched = ctrl.enqueue(b"G28".to_vec()).unwrap();
    transport_write(&mut worker, dispatched);
    ctrl.enqueue(b"M105".to_vec());
    assert_eq!(ctrl.queue_len(), 1);

    let mut losses = 0;
    for act in worker.step(WorkerEvent::ReadFailed) {
        if act == WorkerAction::EmitConnectionLost {
            losses += 1;
            ctrl.disconnect();
        }
    }
    // Later observations add nothing.
    for act in worker.step(WorkerEvent::ReadTimedOut) {
        if act == WorkerAction::EmitConnectionLost {
            losses += 1;
        }
    }
    assert_eq!(losses, 1);
    assert_eq!(ctrl.state(), ConnState::Disconnected);
    assert_eq!(ctrl.queue_len(), 0);
}

#[test]
fn noisy_reply_stream_drives_one_session() {
    // A realistic session: garbage bytes, unsolicited chatter and split
    // reads around two command/acknowledgment cycles.
    let mut ctrl = Controller::new();
    let mut worker = LinkWorker::new();
    ctrl.connect();

    let mut written: Vec<Vec<u8>> = Vec::new();
    if let Some(cmd) = ctrl.enqueue(b"M105".to_vec()) {
        written.push(transport_write(&mut worker, cmd));
    }
    if let Some(cmd) = ctrl.enqueue(b"M114".to_vec()) {
        written.push(transport_write(&mut worker, cmd));
    }
    assert_eq!(written, vec![b"M105\n".to_vec()]);

    // The reply arrives in two chunks, with a disallowed byte and a stray
    // info line mixed in.
    let chunks: [&[u8]; 2] = [b"echo:start\nok\x07T:2", b"5.0\n"];
    for chunk in chunks {
        for act in worker.step(WorkerEvent::ReadData(chunk.to_vec())) {
            if let WorkerAction::EmitLine(line) = act {
                let outcome = ctrl.on_line(&line);
                if let Some(cmd) = outcome.write {
                    written.push(transport_write(&mut worker, cmd));
                }
            }
        }
    }
    assert_eq!(written, vec![b"M105\n".to_vec(), b"M114\n".to_vec()]);
    assert_eq!(ctrl.state(), ConnState::AwaitingAck);
    assert_eq!(ctrl.queue_len(), 0);
}
