use vstd::prelude::*;
use vstd::string::*;

use crate::auth::{
    api_key_problem, authenticate_spec, step_view, AuthContext, AuthService, AuthStep, Fault, StepView,
};
use crate::config::{ClientConfig, KeepaliveConfig};
use crate::error::PropellerError;
use crate::headers::Headers;
use crate::metrics::{bumped, Counter, Metrics};
use crate::push::{
    device_announced, device_from_headers, Device, GetActiveDevicesRequest, PushService,
    SendEventToClientDeviceRequest, SendEventToClientRequest, SendEventToTopicRequest, TopicEvent,
};

verus! {

/// An event as the push protocol carries it.
#[derive(Debug)]
pub struct Event {
    pub name: String,
    pub format_type: i32,
    pub data: Vec<u8>,
}

/// The outcome part of every response of the push protocol.
#[derive(Debug)]
pub struct ResponseStatus {
    pub success: bool,
    pub error_code: String,
    pub message: Vec<(String, String)>,
    pub error_type: String,
}

/// A frame a client sends on its channel stream.
#[derive(Debug)]
pub enum ChannelRequest {
    TopicSubscription { topic: String },
    TopicUnsubscription { topic: String },
    ChannelEvent,
    ChannelEventAck,
    Empty,
}

/// A frame the service sends on a client's channel stream.
#[derive(Debug)]
pub enum ChannelResponse {
    ConnectAck { status: ResponseStatus },
    ChannelEvent { event: Event, topic: String },
    TopicSubscriptionAck { topic: String, status: ResponseStatus },
    TopicUnsubscriptionAck { topic: String, status: ResponseStatus },
}

/// What a client frame asks of the service: join or leave a topic's
/// channel (or why not), or nothing.
#[derive(Debug)]
pub enum ClientRequestPlan {
    Subscribe { topic: String, channel: Result<String, PropellerError> },
    Unsubscribe { topic: String, channel: Result<String, PropellerError> },
    Ignore,
}

/// The answer to a request for a client's devices.
#[derive(Debug)]
pub struct ActiveDevicesResponse {
    pub status: ResponseStatus,
    pub is_client_online: bool,
    pub devices: Vec<Device>,
}

pub open spec fn is_ok_status(s: ResponseStatus) -> bool {
    &&& s.success
    &&& s.error_code@.len() == 0
    &&& s.message@.len() == 0
    &&& s.error_type@.len() == 0
}

pub open spec fn is_err_status(s: ResponseStatus, msg: Seq<char>) -> bool {
    &&& !s.success
    &&& s.error_code@.len() == 0
    &&& s.message@.len() == 1
    &&& s.message@[0].0@ == "message"@
    &&& s.message@[0].1@ == msg
    &&& s.error_type@.len() == 0
}

pub fn ok_status() -> (s: ResponseStatus)
    ensures
        is_ok_status(s),
{
    ResponseStatus { success: true, error_code: String::new(), message: Vec::new(), error_type: String::new() }
}

pub fn err_status(err: &str) -> (s: ResponseStatus)
    ensures
        is_err_status(s, err@),
{
    let mut msg: Vec<(String, String)> = Vec::new();
    msg.push((String::from_str("message"), String::from_str(err)));
    ResponseStatus { success: false, error_code: String::new(), message: msg, error_type: String::new() }
}

/// The bytes and name of an event, empty when the request carries none.
pub fn extract_event(event: &Option<Event>) -> (r: (Vec<u8>, String))
    ensures
        match event {
            Some(e) => r.0@ == e.data@ && r.1@ == e.name@,
            None => r.0@.len() == 0 && r.1@.len() == 0,
        },
{
    match event {
        Some(e) => (e.data.clone(), e.name.clone()),
        None => (Vec::new(), String::new()),
    }
}

/// Counts an authentication: a success (and a legacy header one where the
/// fallback was used) or a failure.
pub fn record_auth(metrics: &mut Metrics, outcome: &Result<(AuthContext, bool), PropellerError>)
    ensures
        match outcome {
            Ok((_, legacy)) => {
                &&& final(metrics).count(Counter::AuthSuccessTotal) == bumped(old(metrics).count(Counter::AuthSuccessTotal))
                &&& final(metrics).count(Counter::LegacyHeaderAuthTotal) == if *legacy {
                    bumped(old(metrics).count(Counter::LegacyHeaderAuthTotal))
                } else {
                    old(metrics).count(Counter::LegacyHeaderAuthTotal)
                }
                &&& forall|c: Counter| c != Counter::AuthSuccessTotal && c != Counter::LegacyHeaderAuthTotal
                    ==> final(metrics).count(c) == old(metrics).count(c)
            },
            Err(_) => {
                &&& final(metrics).count(Counter::AuthFailureTotal) == bumped(old(metrics).count(Counter::AuthFailureTotal))
                &&& forall|c: Counter| c != Counter::AuthFailureTotal ==> final(metrics).count(c) == old(metrics).count(c)
            },
        },
{
    match outcome {
        Ok((_, legacy)) => {
            metrics.increment(Counter::AuthSuccessTotal);
            if *legacy {
                metrics.increment(Counter::LegacyHeaderAuthTotal);
            }
        },
        Err(_) => {
            metrics.increment(Counter::AuthFailureTotal);
        },
    }
}

/// The first frame of every channel: a successful connect acknowledgement.
pub fn connect_ack() -> (r: ChannelResponse)
    ensures
        r matches ChannelResponse::ConnectAck { status } && is_ok_status(status),
{
    ChannelResponse::ConnectAck { status: ok_status() }
}

/// Delivers a broker event on a client's channel, and counts it.
pub fn deliver_event(ev: TopicEvent, metrics: &mut Metrics) -> (r: ChannelResponse)
    ensures
        r matches ChannelResponse::ChannelEvent { event, topic } && topic@ == ev.topic@
            && event.data@ == ev.event@ && event.name@.len() == 0 && event.format_type == 0,
        final(metrics).count(Counter::MessagesDelivered) == bumped(old(metrics).count(Counter::MessagesDelivered)),
        forall|c: Counter| c != Counter::MessagesDelivered ==> final(metrics).count(c) == old(metrics).count(c),
{
    metrics.increment(Counter::MessagesDelivered);
    ChannelResponse::ChannelEvent {
        event: Event { name: String::new(), format_type: 0, data: ev.event },
        topic: ev.topic,
    }
}

/// `r` is what the client frame `req` asks of a session in `tenant`: for a
/// topic request, the topic's channel in the tenant (or why not); otherwise
/// nothing.
pub open spec fn plans(tenant: Seq<char>, req: ChannelRequest, r: ClientRequestPlan) -> bool {
    match req {
        ChannelRequest::TopicSubscription { topic } => r matches ClientRequestPlan::Subscribe { topic: t, channel }
            && t@ == topic@ && topic_channel_outcome(channel) == topic_change_outcome(tenant, topic@),
        ChannelRequest::TopicUnsubscription { topic } => r matches ClientRequestPlan::Unsubscribe { topic: t, channel }
            && t@ == topic@ && topic_channel_outcome(channel) == topic_change_outcome(tenant, topic@),
        _ => r is Ignore,
    }
}

pub open spec fn topic_channel_outcome(c: Result<String, PropellerError>) -> Result<Seq<char>, Fault> {
    match c {
        Ok(c) => Ok(c@),
        Err(e) => Err(e@),
    }
}

/// The channel a session joins or leaves for a topic, or why it may not.
pub open spec fn topic_change_outcome(tenant: Seq<char>, topic: Seq<char>) -> Result<Seq<char>, Fault> {
    match crate::push::topic_change_problem(tenant, topic) {
        Some(f) => Err(f),
        None => Ok(crate::auth::topic_channel_name(tenant, topic)),
    }
}

/// What a client frame asks for, checked against the tenant of the session.
pub fn plan_client_request(push_service: &PushService, tenant_id: &str, req: ChannelRequest) -> (r: ClientRequestPlan)
    ensures
        plans(tenant_id@, req, r),
{
    match req {
        ChannelRequest::TopicSubscription { topic } => {
            let channel = push_service.topic_subscribe(tenant_id, topic.as_str());
            ClientRequestPlan::Subscribe { topic, channel }
        },
        ChannelRequest::TopicUnsubscription { topic } => {
            let channel = push_service.topic_unsubscribe(tenant_id, topic.as_str());
            ClientRequestPlan::Unsubscribe { topic, channel }
        },
        _ => ClientRequestPlan::Ignore,
    }
}

/// Acknowledges a topic subscription request; a success is counted.
pub fn subscription_ack(topic: String, outcome: &Result<(), PropellerError>, metrics: &mut Metrics) -> (r: ChannelResponse)
    ensures
        r matches ChannelResponse::TopicSubscriptionAck { topic: t, status } && t@ == topic@ && match outcome {
            Ok(()) => is_ok_status(status),
            Err(e) => is_err_status(status, crate::error::kind_prefix(e@.0) + e@.1),
        },
        match outcome {
            Ok(()) => final(metrics).count(Counter::TopicSubscribeTotal) == bumped(old(metrics).count(Counter::TopicSubscribeTotal))
                && forall|c: Counter| c != Counter::TopicSubscribeTotal ==> final(metrics).count(c) == old(metrics).count(c),
            Err(_) => forall|c: Counter| final(metrics).count(c) == old(metrics).count(c),
        },
{
    let status = match outcome {
        Ok(()) => {
            metrics.increment(Counter::TopicSubscribeTotal);
            ok_status()
        },
        Err(e) => err_status(e.to_string().as_str()),
    };
    ChannelResponse::TopicSubscriptionAck { topic, status }
}

/// Acknowledges a topic unsubscription request; successes and failures are counted.
pub fn unsubscription_ack(topic: String, outcome: &Result<(), PropellerError>, metrics: &mut Metrics) -> (r: ChannelResponse)
    ensures
        r matches ChannelResponse::TopicUnsubscriptionAck { topic: t, status } && t@ == topic@ && match outcome {
            Ok(()) => is_ok_status(status),
            Err(e) => is_err_status(status, crate::error::kind_prefix(e@.0) + e@.1),
        },
        match outcome {
            Ok(()) => final(metrics).count(Counter::TopicUnsubscribeTotal) == bumped(old(metrics).count(Counter::TopicUnsubscribeTotal))
                && forall|c: Counter| c != Counter::TopicUnsubscribeTotal ==> final(metrics).count(c) == old(metrics).count(c),
            Err(_) => final(metrics).count(Counter::TopicUnsubscribeErrorTotal) == bumped(old(metrics).count(Counter::TopicUnsubscribeErrorTotal))
                && forall|c: Counter| c != Counter::TopicUnsubscribeErrorTotal ==> final(metrics).count(c) == old(metrics).count(c),
        },
{
    let status = match outcome {
        Ok(()) => {
            metrics.increment(Counter::TopicUnsubscribeTotal);
            ok_status()
        },
        Err(e) => {
            metrics.increment(Counter::TopicUnsubscribeErrorTotal);
            err_status(e.to_string().as_str())
        },
    };
    ChannelResponse::TopicUnsubscriptionAck { topic, status }
}

/// The idle watch of one channel stream: the stream is closed once no frame
/// has come from the client for longer than the idle timeout.
#[derive(Debug, Clone, Copy)]
pub struct ChannelSession {
    pub last_inbound_ns: u64,
    pub idle_timeout_secs: u64,
}

/// Nanoseconds from `since` to `now`, zero when `now` is earlier.
pub open spec fn elapsed_ns(since: u64, now: u64) -> int {
    if now >= since { now - since } else { 0 }
}

impl ChannelSession {
    /// A session whose last client frame is taken to be at `now_ns`.
    pub fn new(idle_timeout_secs: u64, now_ns: u64) -> (s: Self)
        ensures
            s.last_inbound_ns == now_ns,
            s.idle_timeout_secs == idle_timeout_secs,
    {
        ChannelSession { last_inbound_ns: now_ns, idle_timeout_secs }
    }

    /// Notes a frame from the client at `now_ns`.
    pub fn on_inbound(&mut self, now_ns: u64)
        ensures
            final(self).last_inbound_ns == now_ns,
            final(self).idle_timeout_secs == old(self).idle_timeout_secs,
    {
        self.last_inbound_ns = now_ns;
    }

    /// Whether the stream has been idle for longer than the timeout at `now_ns`.
    pub fn idle_expired(&self, now_ns: u64) -> (b: bool)
        ensures
            b == (elapsed_ns(self.last_inbound_ns, now_ns) > self.idle_timeout_secs * 1_000_000_000),
    {
        let elapsed: u128 = if now_ns >= self.last_inbound_ns {
            (now_ns - self.last_inbound_ns) as u128
        } else {
            0
        };
        elapsed > (self.idle_timeout_secs as u128) * 1_000_000_000u128
    }

    /// A keepalive tick at `now_ns`: whether the stream must close, counting
    /// the timeout when it must.
    pub fn on_tick(&self, now_ns: u64, metrics: &mut Metrics) -> (expired: bool)
        ensures
            expired == (elapsed_ns(self.last_inbound_ns, now_ns) > self.idle_timeout_secs * 1_000_000_000),
            expired ==> final(metrics).count(Counter::GrpcKeepaliveTimeoutTotal) == bumped(old(metrics).count(Counter::GrpcKeepaliveTimeoutTotal)),
            !expired ==> final(metrics).count(Counter::GrpcKeepaliveTimeoutTotal) == old(metrics).count(Counter::GrpcKeepaliveTimeoutTotal),
            forall|c: Counter| c != Counter::GrpcKeepaliveTimeoutTotal ==> final(metrics).count(c) == old(metrics).count(c),
    {
        let expired = self.idle_expired(now_ns);
        if expired {
            metrics.increment(Counter::GrpcKeepaliveTimeoutTotal);
        }
        expired
    }
}

/// What reaches a client's channel stream: a frame from the client, the end
/// or failure of the client's side, an event from the broker, the end of the
/// subscription, or a keepalive tick.
#[derive(Debug)]
pub enum ChannelInput {
    ClientFrame(ChannelRequest),
    ClientEnded,
    ClientFailed,
    BrokerEvent(TopicEvent),
    BrokerEnded,
    Tick,
}

/// What a channel stream does next.
#[derive(Debug)]
pub enum ChannelAction {
    /// Carry out a client's topic request, then acknowledge it.
    Carry(ClientRequestPlan),
    /// Send a frame to the client.
    Send(ChannelResponse),
    /// Tell the client the stream was idle too long, and close it.
    CloseIdle,
    /// Close the stream.
    Close,
    /// Wait for the next input.
    Continue,
}

impl ChannelSession {
    /// Decides what a channel stream does with its next input at `now_ns`:
    /// a client frame is noted and its topic request planned (other frames
    /// are ignored); a broker event is delivered and counted; the end of
    /// either side closes the stream; a tick closes it once it has been idle
    /// too long, counting the timeout.
    pub fn step(&mut self, push_service: &PushService, tenant_id: &str, input: ChannelInput, now_ns: u64, metrics: &mut Metrics) -> (a: ChannelAction)
        ensures
            final(self).idle_timeout_secs == old(self).idle_timeout_secs,
            match input {
                ChannelInput::ClientFrame(req) => {
                    &&& final(self).last_inbound_ns == now_ns
                    &&& *final(metrics) == *old(metrics)
                    &&& match req {
                        ChannelRequest::TopicSubscription { .. } | ChannelRequest::TopicUnsubscription { .. } => a matches ChannelAction::Carry(p) && plans(tenant_id@, req, p),
                        _ => a is Continue,
                    }
                },
                ChannelInput::BrokerEvent(ev) => {
                    &&& final(self).last_inbound_ns == old(self).last_inbound_ns
                    &&& a matches ChannelAction::Send(ChannelResponse::ChannelEvent { event, topic }) && topic@ == ev.topic@
                        && event.data@ == ev.event@ && event.name@.len() == 0 && event.format_type == 0
                    &&& final(metrics).count(Counter::MessagesDelivered) == bumped(old(metrics).count(Counter::MessagesDelivered))
                    &&& forall|c: Counter| c != Counter::MessagesDelivered ==> final(metrics).count(c) == old(metrics).count(c)
                },
                ChannelInput::Tick => {
                    let expired = elapsed_ns(old(self).last_inbound_ns, now_ns) > old(self).idle_timeout_secs * 1_000_000_000;
                    &&& final(self).last_inbound_ns == old(self).last_inbound_ns
                    &&& (if expired { a is CloseIdle } else { a is Continue })
                    &&& final(metrics).count(Counter::GrpcKeepaliveTimeoutTotal) == if expired {
                        bumped(old(metrics).count(Counter::GrpcKeepaliveTimeoutTotal))
                    } else {
                        old(metrics).count(Counter::GrpcKeepaliveTimeoutTotal)
                    }
                    &&& forall|c: Counter| c != Counter::GrpcKeepaliveTimeoutTotal ==> final(metrics).count(c) == old(metrics).count(c)
                },
                _ => {
                    &&& a is Close
                    &&& final(self).last_inbound_ns == old(self).last_inbound_ns
                    &&& *final(metrics) == *old(metrics)
                },
            },
    {
        match input {
            ChannelInput::ClientFrame(req) => {
                self.on_inbound(now_ns);
                match plan_client_request(push_service, tenant_id, req) {
                    ClientRequestPlan::Ignore => ChannelAction::Continue,
                    plan => ChannelAction::Carry(plan),
                }
            },
            ChannelInput::BrokerEvent(ev) => ChannelAction::Send(deliver_event(ev, metrics)),
            ChannelInput::Tick => {
                if self.on_tick(now_ns, metrics) {
                    ChannelAction::CloseIdle
                } else {
                    ChannelAction::Continue
                }
            },
            _ => ChannelAction::Close,
        }
    }
}

/// The gRPC face of the service: authenticates clients and publishers and
/// turns their calls into delivery plans.
pub struct GrpcPushHandler {
    push_service: PushService,
    auth: AuthService,
    client_config: ClientConfig,
    keepalive: KeepaliveConfig,
}

/// A request to publish to a client, in the publisher's tenant.
pub fn client_event_request(publisher: &AuthContext, client_id: String, event: &Option<Event>) -> (r: SendEventToClientRequest)
    ensures
        r.tenant_id@ == publisher.tenant_id@,
        r.client_id@ == client_id@,
        match event {
            Some(e) => r.event@ == e.data@ && r.event_name@ == e.name@,
            None => r.event@.len() == 0 && r.event_name@.len() == 0,
        },
{
    let (event_bytes, event_name) = extract_event(event);
    SendEventToClientRequest { tenant_id: publisher.tenant_id.clone(), client_id, event_name, event: event_bytes }
}

/// A request to publish to one device of a client, in the publisher's tenant.
pub fn device_event_request(publisher: &AuthContext, client_id: String, device_id: String, event: &Option<Event>) -> (r: SendEventToClientDeviceRequest)
    ensures
        r.tenant_id@ == publisher.tenant_id@,
        r.client_id@ == client_id@,
        r.device_id@ == device_id@,
        match event {
            Some(e) => r.event@ == e.data@ && r.event_name@ == e.name@,
            None => r.event@.len() == 0 && r.event_name@.len() == 0,
        },
{
    let (event_bytes, event_name) = extract_event(event);
    SendEventToClientDeviceRequest {
        tenant_id: publisher.tenant_id.clone(),
        client_id,
        device_id,
        event_name,
        event: event_bytes,
    }
}

/// A request to publish to a topic, in the publisher's tenant.
pub fn topic_event_request(publisher: &AuthContext, topic: String, event: &Option<Event>) -> (r: SendEventToTopicRequest)
    ensures
        r.tenant_id@ == publisher.tenant_id@,
        r.topic@ == topic@,
        match event {
            Some(e) => r.event@ == e.data@ && r.event_name@ == e.name@,
            None => r.event@.len() == 0 && r.event_name@.len() == 0,
        },
{
    let (event_bytes, event_name) = extract_event(event);
    SendEventToTopicRequest { tenant_id: publisher.tenant_id.clone(), topic, event_name, event: event_bytes }
}

/// Requests to publish to several topics, all in the publisher's tenant, in order.
pub fn topics_event_requests(publisher: &AuthContext, items: Vec<(String, Option<Event>)>) -> (r: Vec<SendEventToTopicRequest>)
    ensures
        r@.len() == items@.len(),
        forall|k: int| 0 <= k < r@.len() ==> {
            &&& (#[trigger] r@[k]).tenant_id@ == publisher.tenant_id@
            &&& r@[k].topic@ == items@[k].0@
            &&& match items@[k].1 {
                Some(e) => r@[k].event@ == e.data@ && r@[k].event_name@ == e.name@,
                None => r@[k].event@.len() == 0 && r@[k].event_name@.len() == 0,
            }
        },
{
    let mut out: Vec<SendEventToTopicRequest> = Vec::new();
    let mut i: usize = 0;
    while i < items.len()
        invariant
            i <= items@.len(),
            out@.len() == i,
            forall|k: int| 0 <= k < i ==> {
                &&& (#[trigger] out@[k]).tenant_id@ == publisher.tenant_id@
                &&& out@[k].topic@ == items@[k].0@
                &&& match items@[k].1 {
                    Some(e) => out@[k].event@ == e.data@ && out@[k].event_name@ == e.name@,
                    None => out@[k].event@.len() == 0 && out@[k].event_name@.len() == 0,
                }
            },
        decreases items@.len() - i,
    {
        let req = topic_event_request(publisher, items[i].0.clone(), &items[i].1);
        out.push(req);
        i += 1;
    }
    out
}

/// Whose devices a viewer may list: its own client, named or left empty.
pub fn resolve_device_owner(viewer: &AuthContext, requested: String) -> (r: Result<String, PropellerError>)
    ensures
        requested@.len() == 0 ==> (r matches Ok(c) && c@ == viewer.client_id@),
        requested@.len() > 0 && requested@ == viewer.client_id@ ==> (r matches Ok(c) && c@ == requested@),
        requested@.len() > 0 && requested@ != viewer.client_id@ ==> (r matches Err(e)
            && e@ == (crate::error::ErrorKind::PermissionDenied, "client id mismatch"@)),
{
    if requested.as_str().is_empty() {
        Ok(viewer.client_id.clone())
    } else if requested != viewer.client_id {
        Err(PropellerError::permission_denied("client id mismatch"))
    } else {
        Ok(requested)
    }
}

/// The answer listing a client's devices; it is online when it has any.
pub fn active_devices_response(devices: Vec<Device>) -> (r: ActiveDevicesResponse)
    ensures
        is_ok_status(r.status),
        r.is_client_online == (devices@.len() > 0),
        r.devices@ == devices@,
{
    let is_online = devices.len() > 0;
    ActiveDevicesResponse { status: ok_status(), is_client_online: is_online, devices }
}

impl GrpcPushHandler {
    pub closed spec fn push(self) -> PushService {
        self.push_service
    }

    pub closed spec fn authenticator(self) -> AuthService {
        self.auth
    }

    pub closed spec fn clients(self) -> ClientConfig {
        self.client_config
    }

    pub closed spec fn limits(self) -> KeepaliveConfig {
        self.keepalive
    }

    pub fn new(push_service: PushService, auth: AuthService, client_config: ClientConfig, keepalive: KeepaliveConfig) -> (h: Self)
        ensures
            h.push() == push_service,
            h.authenticator() == auth,
            h.clients() == client_config,
            h.limits() == keepalive,
    {
        Self { push_service, auth, client_config, keepalive }
    }

    pub fn push_service(&self) -> (p: &PushService)
        ensures
            *p == self.push(),
    {
        &self.push_service
    }

    pub fn auth_service(&self) -> (a: &AuthService)
        ensures
            *a == self.authenticator(),
    {
        &self.auth
    }

    pub fn keepalive(&self) -> (k: KeepaliveConfig)
        ensures
            k == self.limits(),
    {
        self.keepalive
    }

    /// The device a channel call announces in its metadata.
    pub fn extract_device(&self, metadata: &Headers) -> (r: Option<Device>)
        ensures
            device_announced(self.clients(), *metadata, r),
    {
        device_from_headers(&self.client_config, metadata)
    }

    /// Authenticates a client call.
    pub fn auth_client(&self, metadata: &Headers) -> (step: AuthStep)
        ensures
            step_view(step) == authenticate_spec(
                self.authenticator().settings(),
                *metadata,
                self.clients(),
                "missing authorization bearer token"@,
            ),
    {
        self.auth.authenticate_grpc(metadata, &self.client_config)
    }

    /// Authenticates a publisher call: its API key first, then its token.
    pub fn authorize_publisher(&self, metadata: &Headers) -> (step: AuthStep)
        ensures
            match api_key_problem(self.authenticator().settings(), *metadata) {
                Some(f) => step_view(step) == StepView::Decided(Err(f)),
                None => step_view(step) == authenticate_spec(
                    self.authenticator().settings(),
                    *metadata,
                    self.clients(),
                    "missing authorization bearer token"@,
                ),
            },
    {
        match self.auth.authorize_api_key_grpc(metadata) {
            Err(e) => AuthStep::Decided(Err(e)),
            Ok(()) => self.auth_client(metadata),
        }
    }

    /// The request for the active devices a viewer asked about.
    pub fn devices_request(&self, viewer: &AuthContext, requested: String) -> (r: Result<GetActiveDevicesRequest, PropellerError>)
        ensures
            match r {
                Ok(req) => req.tenant_id@ == viewer.tenant_id@ && req.client_id@ == viewer.client_id@,
                Err(e) => requested@.len() > 0 && requested@ != viewer.client_id@
                    && e@ == (crate::error::ErrorKind::PermissionDenied, "client id mismatch"@),
            },
            requested@.len() == 0 || requested@ == viewer.client_id@ ==> r is Ok,
            requested@.len() > 0 && requested@ != viewer.client_id@ ==> (r matches Err(e)
                && e@ == (crate::error::ErrorKind::PermissionDenied, "client id mismatch"@)),
    {
        match resolve_device_owner(viewer, requested) {
            Ok(client_id) => Ok(GetActiveDevicesRequest { tenant_id: viewer.tenant_id.clone(), client_id }),
            Err(e) => Err(e),
        }
    }
}

} // verus!
