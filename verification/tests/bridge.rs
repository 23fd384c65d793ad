use bevygap::bridge::{
    bridge_step, poll_result, read_close, BridgeInput, BridgeState, BridgeStep, CloseNotice,
    NfwsCmd, NfwsErr, NfwsEvent, NfwsHandle, NfwsPollResult, OutboundFrame, ReceiveFailure,
    NORMAL_CLOSE,
};

fn close(code: u16, reason: &str) -> Option<CloseNotice> {
    Some(CloseNotice { code, reason: reason.to_string() })
}

fn step(state: BridgeState, event: Option<NfwsEvent>, frame: Option<OutboundFrame>) -> BridgeStep {
    BridgeStep { state, event, frame }
}

fn every_input() -> Vec<BridgeInput> {
    vec![
        BridgeInput::Start,
        BridgeInput::Opened,
        BridgeInput::OpenFailed,
        BridgeInput::Text("t".to_string()),
        BridgeInput::Binary(vec![1, 2]),
        BridgeInput::Close(None),
        BridgeInput::Close(close(1000, "bye")),
        BridgeInput::StreamEnded,
        BridgeInput::ReceiveFailed("e".to_string()),
        BridgeInput::Command(NfwsCmd::SendTextMessage("m".to_string())),
        BridgeInput::Command(NfwsCmd::SendBinaryMessage(vec![3])),
        BridgeInput::Command(NfwsCmd::Disconnect),
        BridgeInput::CommandsClosed,
        BridgeInput::SendFailed("e".to_string()),
    ]
}

#[test]
fn bridge_connects() {
    assert_eq!(
        bridge_step(BridgeState::Starting, BridgeInput::Start),
        step(BridgeState::Connecting, Some(NfwsEvent::Connecting), None)
    );
    assert_eq!(
        bridge_step(BridgeState::Connecting, BridgeInput::Opened),
        step(BridgeState::Connected, Some(NfwsEvent::Connected), None)
    );
}

#[test]
fn failed_connection_is_an_error() {
    assert_eq!(
        bridge_step(BridgeState::Connecting, BridgeInput::OpenFailed),
        step(BridgeState::Failed, Some(NfwsEvent::Error(NfwsErr::Connecting)), None)
    );
}

#[test]
fn frames_become_events() {
    assert_eq!(
        bridge_step(BridgeState::Connected, BridgeInput::Text("hello".to_string())),
        step(BridgeState::Connected, Some(NfwsEvent::TextMessage("hello".to_string())), None)
    );
    assert_eq!(
        bridge_step(BridgeState::Connected, BridgeInput::Binary(vec![0, 255])),
        step(BridgeState::Connected, Some(NfwsEvent::BinaryMessage(vec![0, 255])), None)
    );
}

#[test]
fn commands_become_frames() {
    assert_eq!(
        bridge_step(
            BridgeState::Connected,
            BridgeInput::Command(NfwsCmd::SendTextMessage("hi".to_string()))
        ),
        step(BridgeState::Connected, None, Some(OutboundFrame::Text("hi".to_string())))
    );
    assert_eq!(
        bridge_step(
            BridgeState::Connected,
            BridgeInput::Command(NfwsCmd::SendBinaryMessage(vec![9]))
        ),
        step(BridgeState::Connected, None, Some(OutboundFrame::Binary(vec![9])))
    );
    assert_eq!(
        bridge_step(BridgeState::Connected, BridgeInput::Command(NfwsCmd::Disconnect)),
        step(BridgeState::Closed, None, None)
    );
    assert_eq!(
        bridge_step(BridgeState::Connected, BridgeInput::CommandsClosed),
        step(BridgeState::Closed, None, None)
    );
}

#[test]
fn close_frames_are_classified() {
    assert_eq!(NORMAL_CLOSE, 1000);
    assert_eq!(read_close(&None), NfwsEvent::Closed(Ok(String::new())));
    assert_eq!(read_close(&close(1000, "done")), NfwsEvent::Closed(Ok("done".to_string())));
    assert_eq!(
        read_close(&close(1001, "going")),
        NfwsEvent::Closed(Err("Away - \"going\"".to_string()))
    );
    assert_eq!(
        read_close(&close(1011, "a \"b\"\n")),
        NfwsEvent::Closed(Err("Error - \"a \\\"b\\\"\\n\"".to_string()))
    );
    assert_eq!(
        read_close(&close(4000, "")),
        NfwsEvent::Closed(Err("Library(4000) - \"\"".to_string()))
    );
    assert_eq!(read_close(&close(0, "x")), NfwsEvent::Closed(Err("Bad(0) - \"x\"".to_string())));
    assert_eq!(
        bridge_step(BridgeState::Connected, BridgeInput::Close(close(1000, "bye"))),
        step(BridgeState::Closed, Some(NfwsEvent::Closed(Ok("bye".to_string()))), None)
    );
    assert_eq!(
        bridge_step(BridgeState::Connected, BridgeInput::Close(close(1002, "bad"))),
        step(
            BridgeState::Closed,
            Some(NfwsEvent::Closed(Err("Protocol - \"bad\"".to_string()))),
            None
        )
    );
}

#[test]
fn silent_end_makes_no_event() {
    assert_eq!(
        bridge_step(BridgeState::Connected, BridgeInput::StreamEnded),
        step(BridgeState::Closed, None, None)
    );
}

#[test]
fn transport_errors_end_the_bridge() {
    assert_eq!(
        bridge_step(BridgeState::Connected, BridgeInput::ReceiveFailed("Io(reset)".to_string())),
        step(
            BridgeState::Failed,
            Some(NfwsEvent::Error(NfwsErr::Receiving(
                "Error receiving message: Io(reset)".to_string()
            ))),
            None
        )
    );
    assert_eq!(
        bridge_step(BridgeState::Connected, BridgeInput::SendFailed("AlreadyClosed".to_string())),
        step(
            BridgeState::Failed,
            Some(NfwsEvent::Error(NfwsErr::Sending(
                "Error sending message: AlreadyClosed".to_string()
            ))),
            None
        )
    );
}

#[test]
fn ended_bridge_takes_nothing() {
    for state in [BridgeState::Closed, BridgeState::Failed] {
        for input in every_input() {
            assert_eq!(bridge_step(state, input), step(state, None, None));
        }
    }
}

#[test]
fn inputs_that_do_not_fit_change_nothing() {
    for input in every_input() {
        if input != BridgeInput::Start {
            assert_eq!(
                bridge_step(BridgeState::Starting, input),
                step(BridgeState::Starting, None, None)
            );
        }
    }
    for input in every_input() {
        if input != BridgeInput::Opened && input != BridgeInput::OpenFailed {
            assert_eq!(
                bridge_step(BridgeState::Connecting, input),
                step(BridgeState::Connecting, None, None)
            );
        }
    }
    for input in [BridgeInput::Start, BridgeInput::Opened, BridgeInput::OpenFailed] {
        assert_eq!(
            bridge_step(BridgeState::Connected, input),
            step(BridgeState::Connected, None, None)
        );
    }
}

#[test]
fn failure_is_reported_once() {
    let mut state = BridgeState::Starting;
    let mut errors: usize = 0;
    let inputs = vec![
        BridgeInput::Start,
        BridgeInput::Opened,
        BridgeInput::Text("a".to_string()),
        BridgeInput::ReceiveFailed("x".to_string()),
        BridgeInput::ReceiveFailed("y".to_string()),
        BridgeInput::SendFailed("z".to_string()),
        BridgeInput::Text("b".to_string()),
    ];
    for input in inputs {
        let next = bridge_step(state, input);
        if matches!(next.event, Some(NfwsEvent::Error(_))) {
            errors += 1;
        }
        state = next.state;
    }
    assert_eq!(state, BridgeState::Failed);
    assert_eq!(errors, 1);
}

#[test]
fn poll_results_follow_the_queue() {
    assert_eq!(poll_result(Err(ReceiveFailure::Empty)), NfwsPollResult::Empty);
    assert_eq!(poll_result(Err(ReceiveFailure::Closed)), NfwsPollResult::Closed);
    assert_eq!(
        poll_result(Ok(NfwsEvent::Connected)),
        NfwsPollResult::Event(NfwsEvent::Connected)
    );
}

#[test]
fn handle_passes_commands_and_events() {
    let mut handle = NfwsHandle::new("ws://127.0.0.1:1".to_string());
    assert_eq!(handle.next_event(), NfwsPollResult::Empty);
    assert!(handle.send_text("one".to_string()));
    assert!(handle.send(NfwsCmd::Disconnect));

    let ends = handle.take_task_ends().unwrap();
    assert_eq!(ends.ws_url, "ws://127.0.0.1:1");
    assert!(handle.take_task_ends().is_none());
    assert_eq!(ends.commands.try_recv(), Ok(NfwsCmd::SendTextMessage("one".to_string())));
    assert_eq!(ends.commands.try_recv(), Ok(NfwsCmd::Disconnect));
    assert!(ends.commands.try_recv().is_err());

    ends.events.try_send(NfwsEvent::Connecting).unwrap();
    ends.events.try_send(NfwsEvent::TextMessage("in".to_string())).unwrap();
    assert_eq!(handle.next_event(), NfwsPollResult::Event(NfwsEvent::Connecting));
    assert_eq!(
        handle.next_event(),
        NfwsPollResult::Event(NfwsEvent::TextMessage("in".to_string()))
    );
    assert_eq!(handle.next_event(), NfwsPollResult::Empty);

    // The task is gone: what is left is delivered, then the queue is closed,
    // and commands are dropped.
    ends.events.try_send(NfwsEvent::Closed(Ok(String::new()))).unwrap();
    drop(ends);
    assert_eq!(
        handle.next_event(),
        NfwsPollResult::Event(NfwsEvent::Closed(Ok(String::new())))
    );
    assert_eq!(handle.next_event(), NfwsPollResult::Closed);
    assert!(!handle.send_text("late".to_string()));
}
