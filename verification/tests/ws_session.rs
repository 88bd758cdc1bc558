use bangida::exchange::ws_session::{WsAction, WsInput, WsSession};

#[test]
fn ws_backoff_doubles_to_thirty_seconds() {
    let mut s = WsSession::binance();
    let mut delays = Vec::new();
    for _ in 0..8 {
        match s.step(WsInput::ConnectFailed) {
            WsAction::ReconnectAfter { delay_ms } => delays.push(delay_ms),
            other => panic!("unexpected {:?}", other),
        }
    }
    assert_eq!(delays, vec![500, 1000, 2000, 4000, 8000, 16000, 30000, 30000]);
    s.step(WsInput::Connected { now_ms: 1 });
    assert_eq!(s.backoff_ms(), 500);
    assert!(s.is_connected());
}

#[test]
fn ws_frames_and_heartbeats() {
    let mut s = WsSession::binance();
    assert_eq!(s.step(WsInput::Connected { now_ms: 1_000 }), WsAction::Idle);
    assert_eq!(s.step(WsInput::Text { now_ms: 2_000 }), WsAction::Dispatch);
    assert_eq!(s.step(WsInput::Ping { now_ms: 3_000 }), WsAction::SendPong);
    assert_eq!(s.step(WsInput::Pong { now_ms: 4_000 }), WsAction::Idle);
    assert_eq!(s.step(WsInput::OtherFrame), WsAction::Idle);
    // exactly five minutes of silence is still tolerated
    assert_eq!(s.step(WsInput::HeartbeatDue { now_ms: 304_000 }), WsAction::SendHeartbeat);
    assert_eq!(
        s.step(WsInput::HeartbeatDue { now_ms: 304_001 }),
        WsAction::ReconnectAfter { delay_ms: 500 }
    );
    assert!(!s.is_connected());
}

#[test]
fn ws_bybit_silence_limit() {
    let mut s = WsSession::bybit();
    s.step(WsInput::Connected { now_ms: 0 });
    assert_eq!(s.step(WsInput::HeartbeatDue { now_ms: 60_000 }), WsAction::SendHeartbeat);
    assert_eq!(
        s.step(WsInput::HeartbeatDue { now_ms: 60_001 }),
        WsAction::ReconnectAfter { delay_ms: 500 }
    );
}

#[test]
fn ws_failures_and_shutdown() {
    let mut s = WsSession::bybit();
    s.step(WsInput::Connected { now_ms: 0 });
    assert_eq!(s.step(WsInput::SubscribeFailed), WsAction::ReconnectNow);
    assert_eq!(s.backoff_ms(), 500);
    s.step(WsInput::Connected { now_ms: 5 });
    assert_eq!(s.step(WsInput::ReadFailed), WsAction::ReconnectAfter { delay_ms: 500 });
    s.step(WsInput::Connected { now_ms: 6 });
    assert_eq!(s.step(WsInput::Shutdown), WsAction::Stop { send_close: true });
    assert!(s.is_stopped());
    assert_eq!(s.step(WsInput::Text { now_ms: 7 }), WsAction::Idle);
    let mut t = WsSession::binance();
    t.step(WsInput::Closed);
    assert_eq!(t.step(WsInput::Shutdown), WsAction::Stop { send_close: false });
}

#[test]
fn ws_bybit_authenticates_then_subscribes() {
    let mut s = WsSession::bybit();
    assert_eq!(s.step(WsInput::Connected { now_ms: 1 }), WsAction::SendAuth);
    assert_eq!(s.step(WsInput::AuthSent), WsAction::SendSubscribe);
    assert_eq!(s.step(WsInput::Subscribed), WsAction::Idle);
    assert!(s.is_connected());
    assert_eq!(s.step(WsInput::ReadFailed), WsAction::ReconnectAfter { delay_ms: 500 });
    assert_eq!(s.step(WsInput::Connected { now_ms: 2 }), WsAction::SendAuth);
    // a failed authentication frame only warns: the subscription still goes out
    assert_eq!(s.step(WsInput::AuthSendFailed), WsAction::SendSubscribe);
    assert_eq!(s.step(WsInput::SubscribeFailed), WsAction::ReconnectNow);
    assert!(!s.is_connected());
    let mut b = WsSession::binance();
    assert_eq!(b.step(WsInput::Connected { now_ms: 1 }), WsAction::Idle);
}
