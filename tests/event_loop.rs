use firezone_headless_client::event_loop::{
    select_event, Action, DisconnectNote, Event, Inbound, LoopError, LoopState, Outcome, Phase,
    Readiness, SignalKind,
};
use firezone_headless_client::ipc::IpcClientMsg;

fn connected() -> LoopState {
    LoopState { phase: Phase::Connected }
}

#[test]
fn new_loop_is_connecting() {
    assert_eq!(LoopState::new().phase, Phase::Connecting);
    assert!(LoopState::new().owns_session());
}

#[test]
fn hangups_reconnect_once_each_and_never_end() {
    let mut s = connected();
    let mut reconnects = 0;
    for _ in 0..5 {
        let (actions, outcome) = s.step(Event::Signal(SignalKind::Hangup));
        assert_eq!(outcome, Outcome::Continue);
        assert_eq!(actions, vec![Action::Reconnect]);
        reconnects += actions.len();
    }
    assert_eq!(reconnects, 5);
    assert!(s.owns_session());
}

#[test]
fn disconnect_error_disconnects_and_fails_with_text() {
    let mut s = connected();
    let (actions, outcome) = s.step(Event::Disconnected(DisconnectNote::Error("boom".to_string())));
    assert_eq!(actions, vec![Action::Disconnect]);
    match outcome {
        Outcome::Exit(Err(LoopError::Engine(text))) => assert!(text.contains("boom")),
        other => panic!("unexpected outcome {other:?}"),
    }
    assert_eq!(s.phase, Phase::Disconnected);
}

#[test]
fn closed_channel_is_unexpected() {
    let mut s = connected();
    let (actions, outcome) = s.step(Event::Disconnected(DisconnectNote::Closed));
    assert_eq!(actions, vec![Action::Disconnect]);
    assert_eq!(outcome, Outcome::Exit(Err(LoopError::UnexpectedChannelClose)));
}

#[test]
fn interrupt_disconnects_and_succeeds() {
    let mut s = connected();
    let (actions, outcome) = s.step(Event::Signal(SignalKind::Interrupt));
    assert_eq!(actions, vec![Action::Disconnect]);
    assert_eq!(outcome, Outcome::Exit(Ok(())));
    assert!(!actions.contains(&Action::Reconnect));
    assert!(!s.owns_session());
}

#[test]
fn disconnect_error_has_priority_over_hangup() {
    let mut ready = Readiness {
        disconnect: Some(DisconnectNote::Error("boom".to_string())),
        signal: Some(SignalKind::Hangup),
        ipc: Some(Inbound::Malformed),
        tunnel_ready: true,
    };
    let e = select_event(&mut ready).unwrap();
    assert_eq!(ready.disconnect, None);
    assert_eq!(ready.signal, Some(SignalKind::Hangup));
    assert_eq!(e, Event::Disconnected(DisconnectNote::Error("boom".to_string())));
    let mut s = connected();
    let (actions, outcome) = s.step(e);
    assert_eq!(actions, vec![Action::Disconnect]);
    assert!(matches!(outcome, Outcome::Exit(Err(_))));
}

#[test]
fn signal_before_ipc_before_tunnel_ready() {
    let mut ready = Readiness {
        disconnect: None,
        signal: Some(SignalKind::Interrupt),
        ipc: Some(Inbound::Message(IpcClientMsg::Reconnect)),
        tunnel_ready: true,
    };
    assert_eq!(select_event(&mut ready), Some(Event::Signal(SignalKind::Interrupt)));
    assert_eq!(select_event(&mut ready), Some(Event::Ipc(Inbound::Message(IpcClientMsg::Reconnect))));
    assert_eq!(select_event(&mut ready), Some(Event::TunnelReady));
    assert_eq!(select_event(&mut ready), None);
    assert_eq!(ready, Readiness { disconnect: None, signal: None, ipc: None, tunnel_ready: false });
}

#[test]
fn malformed_input_drops_connection_only() {
    let mut s = connected();
    let (actions, outcome) = s.step(Event::Ipc(Inbound::Malformed));
    assert_eq!(actions, vec![Action::DropConnection]);
    assert_eq!(outcome, Outcome::Continue);
    assert_eq!(s.phase, Phase::Connected);
}

#[test]
fn tunnel_ready_marks_connected() {
    let mut s = LoopState::new();
    let (actions, outcome) = s.step(Event::TunnelReady);
    assert!(actions.is_empty());
    assert_eq!(outcome, Outcome::Continue);
    assert_eq!(s.phase, Phase::Connected);
}

#[test]
fn ipc_commands_dispatch_to_session() {
    let mut s = connected();
    let (a, _) = s.step(Event::Ipc(Inbound::Message(IpcClientMsg::SetDns(vec!["1.1.1.1".to_string()]))));
    assert_eq!(a, vec![Action::SetDns(vec!["1.1.1.1".to_string()])]);
    let (a, _) = s.step(Event::Ipc(Inbound::Message(IpcClientMsg::Reconnect)));
    assert_eq!(a, vec![Action::Reconnect]);
    assert_eq!(s.phase, Phase::Reconnecting);
    let connect = IpcClientMsg::Connect { api_url: "wss://x".to_string(), token: "t".to_string() };
    let (a, _) = s.step(Event::Ipc(Inbound::Message(connect.clone())));
    assert!(a.is_empty());
    let (a, o) = s.step(Event::Ipc(Inbound::Message(IpcClientMsg::Disconnect)));
    assert_eq!(a, vec![Action::Disconnect]);
    assert_eq!(o, Outcome::Continue);
    let (a, _) = s.step(Event::Signal(SignalKind::Hangup));
    assert!(a.is_empty());
    let (a, _) = s.step(Event::Ipc(Inbound::Message(IpcClientMsg::SetDns(vec![]))));
    assert!(a.is_empty());
    let (a, _) = s.step(Event::Ipc(Inbound::Message(connect)));
    assert_eq!(a, vec![Action::Connect { api_url: "wss://x".to_string(), token: "t".to_string() }]);
    assert_eq!(s.phase, Phase::Connecting);
}

#[test]
fn interrupt_without_session_just_succeeds() {
    let mut s = LoopState { phase: Phase::Disconnected };
    let (actions, outcome) = s.step(Event::Signal(SignalKind::Interrupt));
    assert!(actions.is_empty());
    assert_eq!(outcome, Outcome::Exit(Ok(())));
}

#[test]
fn inbound_frames_decode_or_are_malformed() {
    assert_eq!(Inbound::from_bytes(&vec![2]), Inbound::Message(IpcClientMsg::Reconnect));
    assert_eq!(Inbound::from_bytes(&vec![9]), Inbound::Malformed);
    let mut s = connected();
    let (actions, outcome) = s.step(Event::Ipc(Inbound::from_bytes(&vec![42, 1, 2])));
    assert_eq!(actions, vec![Action::DropConnection]);
    assert_eq!(outcome, Outcome::Continue);
    assert_eq!(s.phase, Phase::Connected);
}
