//! The decisions of a market-data WebSocket session: what to send first on
//! a new connection, when to hand a frame on, answer a ping, send a
//! heartbeat, give up on a silent or broken connection, how long to wait
//! before reconnecting, and when to stop.
//!
//! The connection itself, the timers and the sleeping are the caller's: it
//! reports each thing that happens as a `WsInput` and performs the
//! `WsAction` that comes back.
use vstd::prelude::*;

verus! {

/// The first reconnect delay, and the delay after a successful connection.
pub const INITIAL_BACKOFF_MS: u64 = 500;

/// The longest reconnect delay.
pub const MAX_BACKOFF_MS: u64 = 30_000;

/// How long a Binance stream may stay silent before it is dropped.
pub const BINANCE_SILENCE_MS: u64 = 300_000;

/// How long a Bybit stream may stay silent before it is dropped.
pub const BYBIT_SILENCE_MS: u64 = 60_000;

/// Something that happened to the session.
#[derive(Debug, Clone, Copy, PartialEq, Eq, Structural)]
pub enum WsInput {
    /// The connection was opened at `now_ms`.
    Connected { now_ms: u64 },
    /// Opening the connection failed.
    ConnectFailed,
    /// A text frame arrived at `now_ms`.
    Text { now_ms: u64 },
    /// A ping frame arrived at `now_ms`.
    Ping { now_ms: u64 },
    /// A pong frame arrived at `now_ms`.
    Pong { now_ms: u64 },
    /// Some other frame arrived.
    OtherFrame,
    /// The server closed the connection.
    Closed,
    /// Reading from the connection failed.
    ReadFailed,
    /// The stream of frames ended.
    StreamEnded,
    /// Sending a pong or a heartbeat failed.
    SendFailed,
    /// The authentication frame was sent.
    AuthSent,
    /// Sending the authentication frame failed.
    AuthSendFailed,
    /// The subscription frame was sent.
    Subscribed,
    /// Sending the subscription failed.
    SubscribeFailed,
    /// The heartbeat timer fired at `now_ms`.
    HeartbeatDue { now_ms: u64 },
    /// A shutdown was requested.
    Shutdown,
}

/// What the caller does next.
#[derive(Debug, Clone, Copy, PartialEq, Eq, Structural)]
pub enum WsAction {
    /// Nothing.
    Idle,
    /// Send the authentication frame.
    SendAuth,
    /// Send the subscription frame.
    SendSubscribe,
    /// Hand the text frame to the message handler.
    Dispatch,
    /// Answer the ping with a pong carrying the same data.
    SendPong,
    /// Send a heartbeat.
    SendHeartbeat,
    /// Drop the connection, wait `delay_ms`, then connect again.
    ReconnectAfter { delay_ms: u64 },
    /// Drop the connection and connect again at once.
    ReconnectNow,
    /// Stop for good, sending a close frame first when connected.
    Stop { send_close: bool },
}

/// The session as plain data.
pub struct WsState {
    pub backoff_ms: u64,
    pub silence_limit_ms: u64,
    pub last_msg_ms: u64,
    pub connected: bool,
    pub stopped: bool,
    /// Whether a new connection is authenticated and subscribed by frames.
    pub authenticates: bool,
}

/// The delay after `b`: twice as long, at most the longest delay.
pub open spec fn doubled(b: u64) -> u64 {
    if 2 * b <= MAX_BACKOFF_MS {
        (2 * b) as u64
    } else {
        MAX_BACKOFF_MS
    }
}

/// Dropping the connection: wait the current delay, and double it for the
/// next time.
pub open spec fn dropped(s: WsState) -> (WsState, WsAction) {
    (
        WsState { connected: false, backoff_ms: doubled(s.backoff_ms), ..s },
        WsAction::ReconnectAfter { delay_ms: s.backoff_ms },
    )
}

/// The next state and action of a session on an input. A stopped session
/// does nothing more. A session that authenticates sends the authentication
/// frame first on a new connection, then the subscription whether or not
/// the authentication frame went out; a failed subscription reconnects at
/// once.
pub open spec fn ws_step(s: WsState, input: WsInput) -> (WsState, WsAction) {
    if s.stopped {
        (s, WsAction::Idle)
    } else {
        match input {
            WsInput::Connected { now_ms } => (
                WsState { connected: true, backoff_ms: INITIAL_BACKOFF_MS, last_msg_ms: now_ms, ..s },
                if s.authenticates {
                    WsAction::SendAuth
                } else {
                    WsAction::Idle
                },
            ),
            WsInput::AuthSent => (s, WsAction::SendSubscribe),
            WsInput::AuthSendFailed => (s, WsAction::SendSubscribe),
            WsInput::Subscribed => (s, WsAction::Idle),
            WsInput::ConnectFailed => dropped(s),
            WsInput::Text { now_ms } => (WsState { last_msg_ms: now_ms, ..s }, WsAction::Dispatch),
            WsInput::Ping { now_ms } => (WsState { last_msg_ms: now_ms, ..s }, WsAction::SendPong),
            WsInput::Pong { now_ms } => (WsState { last_msg_ms: now_ms, ..s }, WsAction::Idle),
            WsInput::OtherFrame => (s, WsAction::Idle),
            WsInput::Closed => dropped(s),
            WsInput::ReadFailed => dropped(s),
            WsInput::StreamEnded => dropped(s),
            WsInput::SendFailed => dropped(s),
            WsInput::SubscribeFailed => (WsState { connected: false, ..s }, WsAction::ReconnectNow),
            WsInput::HeartbeatDue { now_ms } => {
                if now_ms - s.last_msg_ms > s.silence_limit_ms {
                    dropped(s)
                } else {
                    (s, WsAction::SendHeartbeat)
                }
            },
            WsInput::Shutdown => (
                WsState { stopped: true, ..s },
                WsAction::Stop { send_close: s.connected },
            ),
        }
    }
}

/// The reconnect delay stays between the first and the longest delay.
pub open spec fn ws_wf(s: WsState) -> bool {
    INITIAL_BACKOFF_MS <= s.backoff_ms <= MAX_BACKOFF_MS
}

/// A WebSocket session's reconnect and liveness bookkeeping.
pub struct WsSession {
    backoff_ms: u64,
    silence_limit_ms: u64,
    last_msg_ms: u64,
    connected: bool,
    stopped: bool,
    authenticates: bool,
}

impl WsSession {
    pub closed spec fn state(&self) -> WsState {
        WsState {
            backoff_ms: self.backoff_ms,
            silence_limit_ms: self.silence_limit_ms,
            last_msg_ms: self.last_msg_ms,
            connected: self.connected,
            stopped: self.stopped,
            authenticates: self.authenticates,
        }
    }

    /// A session, not yet connected, that drops a connection silent for
    /// more than `silence_limit_ms` and, when `authenticates`, opens each
    /// connection with an authentication and a subscription frame.
    pub fn new(silence_limit_ms: u64, authenticates: bool) -> (r: Self)
        ensures
            ws_wf(r.state()),
            r.state() == (WsState {
                backoff_ms: INITIAL_BACKOFF_MS,
                silence_limit_ms,
                last_msg_ms: 0,
                connected: false,
                stopped: false,
                authenticates,
            }),
    {
        WsSession {
            backoff_ms: INITIAL_BACKOFF_MS,
            silence_limit_ms,
            last_msg_ms: 0,
            connected: false,
            stopped: false,
            authenticates,
        }
    }

    /// The session of a Binance combined stream (silence limit: 5 minutes;
    /// the streams are named in the URL, so nothing is sent on connecting).
    pub fn binance() -> (r: Self)
        ensures
            ws_wf(r.state()),
            r.state().silence_limit_ms == BINANCE_SILENCE_MS,
            !r.state().authenticates,
            r.state().backoff_ms == INITIAL_BACKOFF_MS,
            !r.state().connected,
            !r.state().stopped,
    {
        WsSession::new(BINANCE_SILENCE_MS, false)
    }

    /// The session of a Bybit public stream (silence limit: 60 seconds;
    /// each connection is authenticated, then subscribed).
    pub fn bybit() -> (r: Self)
        ensures
            ws_wf(r.state()),
            r.state().silence_limit_ms == BYBIT_SILENCE_MS,
            r.state().authenticates,
            r.state().backoff_ms == INITIAL_BACKOFF_MS,
            !r.state().connected,
            !r.state().stopped,
    {
        WsSession::new(BYBIT_SILENCE_MS, true)
    }

    /// Takes in what happened and says what to do: see `ws_step`.
    pub fn step(&mut self, input: WsInput) -> (r: WsAction)
        requires
            ws_wf(old(self).state()),
        ensures
            ws_wf(final(self).state()),
            (final(self).state(), r) == ws_step(old(self).state(), input),
    {
        if self.stopped {
            return WsAction::Idle;
        }
        match input {
            WsInput::Connected { now_ms } => {
                self.connected = true;
                self.backoff_ms = INITIAL_BACKOFF_MS;
                self.last_msg_ms = now_ms;
                if self.authenticates {
                    WsAction::SendAuth
                } else {
                    WsAction::Idle
                }
            },
            WsInput::AuthSent => WsAction::SendSubscribe,
            WsInput::AuthSendFailed => WsAction::SendSubscribe,
            WsInput::Subscribed => WsAction::Idle,
            WsInput::Text { now_ms } => {
                self.last_msg_ms = now_ms;
                WsAction::Dispatch
            },
            WsInput::Ping { now_ms } => {
                self.last_msg_ms = now_ms;
                WsAction::SendPong
            },
            WsInput::Pong { now_ms } => {
                self.last_msg_ms = now_ms;
                WsAction::Idle
            },
            WsInput::OtherFrame => WsAction::Idle,
            WsInput::SubscribeFailed => {
                self.connected = false;
                WsAction::ReconnectNow
            },
            WsInput::HeartbeatDue { now_ms } => {
                let silent = now_ms.saturating_sub(self.last_msg_ms);
                if silent > self.silence_limit_ms {
                    self.drop_connection()
                } else {
                    WsAction::SendHeartbeat
                }
            },
            WsInput::Shutdown => {
                self.stopped = true;
                WsAction::Stop { send_close: self.connected }
            },
            _ => self.drop_connection(),
        }
    }

    fn drop_connection(&mut self) -> (r: WsAction)
        requires
            ws_wf(old(self).state()),
        ensures
            ws_wf(final(self).state()),
            (final(self).state(), r) == dropped(old(self).state()),
    {
        let delay = self.backoff_ms;
        self.connected = false;
        self.backoff_ms = if self.backoff_ms * 2 <= MAX_BACKOFF_MS {
            self.backoff_ms * 2
        } else {
            MAX_BACKOFF_MS
        };
        WsAction::ReconnectAfter { delay_ms: delay }
    }

    /// Whether the session is connected.
    pub fn is_connected(&self) -> (r: bool)
        ensures
            r == self.state().connected,
    {
        self.connected
    }

    /// Whether the session has stopped.
    pub fn is_stopped(&self) -> (r: bool)
        ensures
            r == self.state().stopped,
    {
        self.stopped
    }

    /// The delay before the next reconnect.
    pub fn backoff_ms(&self) -> (r: u64)
        ensures
            r == self.state().backoff_ms,
    {
        self.backoff_ms
    }
}

/// The delay before the `n`-th reconnect in a row: 0.5 s, then doubling up
/// to 30 s.
pub open spec fn nth_delay(n: nat) -> u64
    decreases n,
{
    if n == 0 {
        INITIAL_BACKOFF_MS
    } else {
        doubled(nth_delay((n - 1) as nat))
    }
}

/// Every reconnect waits between 0.5 s and 30 s; a successful connection
/// brings the delay back to 0.5 s; a stopped session stays stopped and does
/// nothing.
pub proof fn lemma_reconnect_delay_bounds(s: WsState, input: WsInput)
    requires
        ws_wf(s),
    ensures
        ws_wf(ws_step(s, input).0),
        ws_step(s, input).1 matches WsAction::ReconnectAfter { delay_ms }
            ==> INITIAL_BACKOFF_MS <= delay_ms <= MAX_BACKOFF_MS,
        !s.stopped && (input matches WsInput::Connected { .. }) ==> ws_step(s, input).0.backoff_ms
            == INITIAL_BACKOFF_MS,
        s.stopped ==> ws_step(s, input) == (s, WsAction::Idle),
{
}

/// What goes out first on a new connection: a session that authenticates
/// asks for the authentication frame, then (whether that frame went out or
/// not) for the subscription frame, and reconnects at once when the
/// subscription cannot be sent; a session that does not authenticate sends
/// nothing on connecting.
pub proof fn lemma_first_frames(s: WsState, now_ms: u64)
    requires
        !s.stopped,
    ensures
        ({
            let (s1, a1) = ws_step(s, WsInput::Connected { now_ms });
            &&& s1.connected
            &&& a1 == (if s.authenticates {
                WsAction::SendAuth
            } else {
                WsAction::Idle
            })
            &&& ws_step(s1, WsInput::AuthSent) == (s1, WsAction::SendSubscribe)
            &&& ws_step(s1, WsInput::AuthSendFailed) == (s1, WsAction::SendSubscribe)
            &&& ws_step(s1, WsInput::Subscribed) == (s1, WsAction::Idle)
            &&& ws_step(s1, WsInput::SubscribeFailed).1 == WsAction::ReconnectNow
            &&& !ws_step(s1, WsInput::SubscribeFailed).0.connected
        }),
{
}

/// After `n` failed attempts since the last successful connection, the
/// next one waits `nth_delay(n)`: the delays double from 0.5 s and stop
/// growing at 30 s.
pub proof fn lemma_delays_double_to_cap(s: WsState, n: nat)
    requires
        !s.stopped,
        s.backoff_ms == nth_delay(n),
    ensures
        ws_step(s, WsInput::ConnectFailed).1 == (WsAction::ReconnectAfter { delay_ms: nth_delay(n) }),
        ws_step(s, WsInput::ConnectFailed).0.backoff_ms == nth_delay(n + 1),
        nth_delay(n) <= MAX_BACKOFF_MS,
        n >= 6 ==> nth_delay(n) == MAX_BACKOFF_MS,
    decreases n,
{
    if n > 0 {
        lemma_nth_delay_bounds((n - 1) as nat);
    }
    lemma_nth_delay_bounds(n);
}

proof fn lemma_nth_delay_bounds(n: nat)
    ensures
        INITIAL_BACKOFF_MS <= nth_delay(n) <= MAX_BACKOFF_MS,
        n >= 6 ==> nth_delay(n) == MAX_BACKOFF_MS,
    decreases n,
{
    if n > 0 {
        lemma_nth_delay_bounds((n - 1) as nat);
        if n == 6 {
            reveal_with_fuel(nth_delay, 7);
        }
    }
}

} // verus!
