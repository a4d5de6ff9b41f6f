use vstd::prelude::*;
use vstd::string::*;
use vstd::utf8::{decode_utf8, valid_utf8};

use crate::auth::{authenticate_spec, step_view, AuthService, AuthStep};
use crate::config::ClientConfig;
use crate::headers::Headers;
use crate::metrics::{bumped, Counter, Metrics};
use crate::push::{device_announced, device_from_headers, Device, PushService, TopicEvent};

verus! {

/// The WebSocket face of the service: authenticates upgrade requests and
/// decides how a connection's frames are handled.
pub struct WsState {
    pub push_service: PushService,
    pub auth: AuthService,
    pub client_config: ClientConfig,
}

/// A frame (or the end) of a client's WebSocket.
#[derive(Debug)]
pub enum WsInbound {
    Text(String),
    Pong,
    Close,
    Ended,
    Error,
    Other,
}

/// Whether a frame ends the connection: a close frame, the end of the
/// stream, or a transport error.
pub open spec fn ends_connection(msg: WsInbound) -> bool {
    match msg {
        WsInbound::Close | WsInbound::Ended | WsInbound::Error => true,
        _ => false,
    }
}

pub fn ws_should_stop(msg: &WsInbound) -> (b: bool)
    ensures
        b == ends_connection(*msg),
{
    match msg {
        WsInbound::Close | WsInbound::Ended | WsInbound::Error => true,
        _ => false,
    }
}

/// What a keepalive tick asks of a WebSocket connection.
#[derive(Debug, Clone, Copy, PartialEq, Eq, Structural)]
pub enum KeepaliveAction {
    Nothing,
    SendPing,
    Close,
}

/// The ping/pong watch of one WebSocket: a Ping is sent once the interval
/// has passed since the last one was answered (or since the connection
/// opened), and the connection is closed when a Ping stays unanswered for
/// longer than the pong timeout.
#[derive(Debug, Clone, Copy)]
pub struct WsKeepalive {
    pub ping_interval_secs: u64,
    pub pong_timeout_secs: u64,
    /// When the last Ping was sent, or the connection opened.
    pub last_ping_ns: u64,
    /// Whether the last Ping is still unanswered.
    pub awaiting_pong: bool,
}

pub open spec fn secs_to_ns(s: u64) -> int {
    s * 1_000_000_000
}

pub open spec fn since_ns(since: u64, now: u64) -> int {
    if now >= since { now - since } else { 0 }
}

/// What a tick at `now` asks for, from the watch's state before it.
pub open spec fn keepalive_action(k: WsKeepalive, now: u64) -> KeepaliveAction {
    if k.awaiting_pong {
        if since_ns(k.last_ping_ns, now) > secs_to_ns(k.pong_timeout_secs) {
            KeepaliveAction::Close
        } else {
            KeepaliveAction::Nothing
        }
    } else if since_ns(k.last_ping_ns, now) >= secs_to_ns(k.ping_interval_secs) {
        KeepaliveAction::SendPing
    } else {
        KeepaliveAction::Nothing
    }
}

impl WsKeepalive {
    pub fn new(ping_interval_secs: u64, pong_timeout_secs: u64, now_ns: u64) -> (k: Self)
        ensures
            k.ping_interval_secs == ping_interval_secs,
            k.pong_timeout_secs == pong_timeout_secs,
            k.last_ping_ns == now_ns,
            !k.awaiting_pong,
    {
        WsKeepalive { ping_interval_secs, pong_timeout_secs, last_ping_ns: now_ns, awaiting_pong: false }
    }

    /// A keepalive tick at `now_ns`; a Ping sent and a timeout are counted.
    pub fn on_tick(&mut self, now_ns: u64, metrics: &mut Metrics) -> (a: KeepaliveAction)
        ensures
            a == keepalive_action(*old(self), now_ns),
            final(self).ping_interval_secs == old(self).ping_interval_secs,
            final(self).pong_timeout_secs == old(self).pong_timeout_secs,
            a == KeepaliveAction::SendPing ==> final(self).awaiting_pong && final(self).last_ping_ns == now_ns
                && final(metrics).count(Counter::WsPingSentTotal) == bumped(old(metrics).count(Counter::WsPingSentTotal))
                && forall|c: Counter| c != Counter::WsPingSentTotal ==> final(metrics).count(c) == old(metrics).count(c),
            a == KeepaliveAction::Close ==> *final(self) == *old(self)
                && final(metrics).count(Counter::WsKeepaliveTimeoutTotal) == bumped(old(metrics).count(Counter::WsKeepaliveTimeoutTotal))
                && forall|c: Counter| c != Counter::WsKeepaliveTimeoutTotal ==> final(metrics).count(c) == old(metrics).count(c),
            a == KeepaliveAction::Nothing ==> *final(self) == *old(self) && *final(metrics) == *old(metrics),
    {
        let elapsed: u128 = if now_ns >= self.last_ping_ns {
            (now_ns - self.last_ping_ns) as u128
        } else {
            0
        };
        if self.awaiting_pong {
            if elapsed > (self.pong_timeout_secs as u128) * 1_000_000_000u128 {
                metrics.increment(Counter::WsKeepaliveTimeoutTotal);
                return KeepaliveAction::Close;
            }
            return KeepaliveAction::Nothing;
        }
        if elapsed >= (self.ping_interval_secs as u128) * 1_000_000_000u128 {
            self.last_ping_ns = now_ns;
            self.awaiting_pong = true;
            metrics.increment(Counter::WsPingSentTotal);
            return KeepaliveAction::SendPing;
        }
        KeepaliveAction::Nothing
    }

    /// A Pong from the client: the outstanding Ping is answered; the Pong is counted.
    pub fn on_pong(&mut self, metrics: &mut Metrics)
        ensures
            !final(self).awaiting_pong,
            final(self).last_ping_ns == old(self).last_ping_ns,
            final(self).ping_interval_secs == old(self).ping_interval_secs,
            final(self).pong_timeout_secs == old(self).pong_timeout_secs,
            final(metrics).count(Counter::WsPongReceivedTotal) == bumped(old(metrics).count(Counter::WsPongReceivedTotal)),
            forall|c: Counter| c != Counter::WsPongReceivedTotal ==> final(metrics).count(c) == old(metrics).count(c),
    {
        self.awaiting_pong = false;
        metrics.increment(Counter::WsPongReceivedTotal);
    }
}

/// What reaches a WebSocket connection: a frame from the client (or the end
/// of its side), an event from the broker, the end of the subscription, or a
/// keepalive tick.
#[derive(Debug)]
pub enum WsInput {
    Frame(WsInbound),
    BrokerEvent(TopicEvent),
    BrokerEnded,
    Tick,
}

/// What a WebSocket connection does next.
#[derive(Debug)]
pub enum WsAction {
    /// Send a broker event to the client.
    Deliver(TopicEvent),
    /// Send a Ping.
    SendPing,
    /// Close the connection: a Ping went unanswered too long.
    CloseTimedOut,
    /// Close the connection.
    Close,
    /// Wait for the next input.
    Continue,
}

impl WsKeepalive {
    /// Decides what a connection does with its next input at `now_ns`: a
    /// Pong answers the outstanding Ping, a close, an end or an error of the
    /// client's side closes it, other frames are read and dropped; a broker
    /// event is delivered and counted, the end of the subscription closes the
    /// connection; a tick pings or times out as the keepalive asks.
    pub fn step(&mut self, input: WsInput, now_ns: u64, metrics: &mut Metrics) -> (a: WsAction)
        ensures
            final(self).ping_interval_secs == old(self).ping_interval_secs,
            final(self).pong_timeout_secs == old(self).pong_timeout_secs,
            match input {
                WsInput::Frame(WsInbound::Pong) => {
                    &&& a is Continue
                    &&& !final(self).awaiting_pong
                    &&& final(self).last_ping_ns == old(self).last_ping_ns
                    &&& final(metrics).count(Counter::WsPongReceivedTotal) == bumped(old(metrics).count(Counter::WsPongReceivedTotal))
                    &&& forall|c: Counter| c != Counter::WsPongReceivedTotal ==> final(metrics).count(c) == old(metrics).count(c)
                },
                WsInput::Frame(m) => {
                    &&& (if ends_connection(m) { a is Close } else { a is Continue })
                    &&& *final(self) == *old(self)
                    &&& *final(metrics) == *old(metrics)
                },
                WsInput::BrokerEvent(ev) => {
                    &&& a == WsAction::Deliver(ev)
                    &&& *final(self) == *old(self)
                    &&& final(metrics).count(Counter::MessagesDelivered) == bumped(old(metrics).count(Counter::MessagesDelivered))
                    &&& forall|c: Counter| c != Counter::MessagesDelivered ==> final(metrics).count(c) == old(metrics).count(c)
                },
                WsInput::BrokerEnded => {
                    &&& a is Close
                    &&& *final(self) == *old(self)
                    &&& *final(metrics) == *old(metrics)
                },
                WsInput::Tick => match keepalive_action(*old(self), now_ns) {
                    KeepaliveAction::SendPing => {
                        &&& a is SendPing
                        &&& final(self).awaiting_pong && final(self).last_ping_ns == now_ns
                        &&& final(metrics).count(Counter::WsPingSentTotal) == bumped(old(metrics).count(Counter::WsPingSentTotal))
                        &&& forall|c: Counter| c != Counter::WsPingSentTotal ==> final(metrics).count(c) == old(metrics).count(c)
                    },
                    KeepaliveAction::Close => {
                        &&& a is CloseTimedOut
                        &&& *final(self) == *old(self)
                        &&& final(metrics).count(Counter::WsKeepaliveTimeoutTotal) == bumped(old(metrics).count(Counter::WsKeepaliveTimeoutTotal))
                        &&& forall|c: Counter| c != Counter::WsKeepaliveTimeoutTotal ==> final(metrics).count(c) == old(metrics).count(c)
                    },
                    KeepaliveAction::Nothing => {
                        &&& a is Continue
                        &&& *final(self) == *old(self)
                        &&& *final(metrics) == *old(metrics)
                    },
                },
            },
    {
        match input {
            WsInput::Frame(WsInbound::Pong) => {
                self.on_pong(metrics);
                WsAction::Continue
            },
            WsInput::Frame(m) => {
                if ws_should_stop(&m) {
                    WsAction::Close
                } else {
                    WsAction::Continue
                }
            },
            WsInput::BrokerEvent(ev) => {
                metrics.increment(Counter::MessagesDelivered);
                WsAction::Deliver(ev)
            },
            WsInput::BrokerEnded => WsAction::Close,
            WsInput::Tick => match self.on_tick(now_ns, metrics) {
                KeepaliveAction::SendPing => WsAction::SendPing,
                KeepaliveAction::Close => WsAction::CloseTimedOut,
                KeepaliveAction::Nothing => WsAction::Continue,
            },
        }
    }
}

// ---------------------------------------------------------------------------
// Frames sent on a WebSocket: JSON objects, members in name order.
// ---------------------------------------------------------------------------

/// What `serde_json` writes a text as: a JSON string literal.
pub uninterp spec fn json_quoted(s: Seq<char>) -> Seq<char>;

/// What `String::from_utf8_lossy` reads bytes as.
pub uninterp spec fn lossy_utf8_text(bytes: Seq<u8>) -> Seq<char>;

/// Trusted: `serde_json::to_string` of a `&str`. Claims the text is the
/// JSON string literal of `s` (named, not stated); serialising a string does
/// not fail.
#[verifier::external_body]
fn json_string(s: &str) -> (r: String)
    ensures
        r@ == json_quoted(s@),
{
    serde_json::to_string(s).unwrap_or_default()
}

/// Trusted: `String::from_utf8_lossy`. Claims the text is named by the bytes
/// alone and, as std documents, is their decoding where they are valid UTF-8.
#[verifier::external_body]
fn utf8_lossy(bytes: &[u8]) -> (r: String)
    ensures
        r@ == lossy_utf8_text(bytes@),
        valid_utf8(bytes@) ==> r@ == decode_utf8(bytes@),
{
    String::from_utf8_lossy(bytes).into_owned()
}

/// The frame that acknowledges a connection.
pub open spec fn connect_ack_frame_text() -> Seq<char> {
    "{\"status\":{\"success\":true},\"type\":\"connect_ack\"}"@
}

/// The frame that carries a broker event: its bytes read as text (invalid
/// UTF-8 replaced), and the channel it came on.
pub open spec fn event_frame_text(topic: Seq<char>, data: Seq<u8>) -> Seq<char> {
    "{\"data\":"@ + json_quoted(lossy_utf8_text(data)) + ",\"topic\":"@ + json_quoted(topic) + ",\"type\":\"event\"}"@
}

pub fn ws_connect_ack_frame() -> (s: String)
    ensures
        s@ == connect_ack_frame_text(),
{
    String::from_str("{\"status\":{\"success\":true},\"type\":\"connect_ack\"}")
}

pub fn ws_event_frame(ev: &TopicEvent) -> (s: String)
    ensures
        s@ == event_frame_text(ev.topic@, ev.event@),
{
    let data = utf8_lossy(ev.event.as_slice());
    let mut s = String::from_str("{\"data\":");
    s.append(json_string(data.as_str()).as_str());
    s.append(",\"topic\":");
    s.append(json_string(ev.topic.as_str()).as_str());
    s.append(",\"type\":\"event\"}");
    s
}

impl WsState {
    pub fn new(push_service: PushService, auth: AuthService, client_config: ClientConfig) -> (s: Self)
        ensures
            s.push_service == push_service,
            s.auth == auth,
            s.client_config == client_config,
    {
        WsState { push_service, auth, client_config }
    }

    /// Authenticates an upgrade request from its headers.
    pub fn connect_auth(&self, headers: &Headers) -> (step: AuthStep)
        ensures
            step_view(step) == authenticate_spec(
                self.auth.settings(),
                *headers,
                self.client_config,
                "missing Authorization bearer token"@,
            ),
    {
        self.auth.authenticate_http(headers, &self.client_config)
    }

    /// The device an upgrade request announces.
    pub fn connect_device(&self, headers: &Headers) -> (r: Option<Device>)
        ensures
            device_announced(self.client_config, *headers, r),
    {
        device_from_headers(&self.client_config, headers)
    }

    /// Whether a connection may go ahead: it must name a client.
    pub fn admits(&self, client_id: &str) -> (b: bool)
        ensures
            b == (client_id@.len() > 0),
    {
        !client_id.is_empty()
    }
}

} // verus!
