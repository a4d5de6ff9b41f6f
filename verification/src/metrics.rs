use vstd::prelude::*;

verus! {

/// One of the service's counters.
#[derive(Clone, Copy, Debug, PartialEq, Eq, Structural)]
pub enum Counter {
    Connections,
    MessagesPublished,
    MessagesDelivered,
    AuthSuccessTotal,
    AuthFailureTotal,
    LegacyHeaderAuthTotal,
    TopicSubscribeTotal,
    TopicUnsubscribeTotal,
    TopicUnsubscribeErrorTotal,
    ActiveTopicListeners,
    WsPingSentTotal,
    WsPongReceivedTotal,
    WsKeepaliveTimeoutTotal,
    GrpcKeepaliveTimeoutTotal,
}

/// A counter after one more event: counters wrap around at `u64::MAX`.
pub open spec fn bumped(x: u64) -> u64 {
    if x == u64::MAX { 0 } else { (x + 1) as u64 }
}

/// A counter after one event is taken back: counters wrap around at zero.
pub open spec fn lowered(x: u64) -> u64 {
    if x == 0 { u64::MAX } else { (x - 1) as u64 }
}

/// The service's counters.
#[derive(Debug)]
pub struct Metrics {
    pub connections: u64,
    pub messages_published: u64,
    pub messages_delivered: u64,
    pub auth_success_total: u64,
    pub auth_failure_total: u64,
    pub legacy_header_auth_total: u64,
    pub topic_subscribe_total: u64,
    pub topic_unsubscribe_total: u64,
    pub topic_unsubscribe_error_total: u64,
    pub active_topic_listeners: u64,
    pub ws_ping_sent_total: u64,
    pub ws_pong_received_total: u64,
    pub ws_keepalive_timeout_total: u64,
    pub grpc_keepalive_timeout_total: u64,
}

/// The counters at one moment, as the metrics endpoint reports them.
#[derive(Debug, Clone, Copy)]
pub struct MetricsSnapshot {
    pub connections: u64,
    pub messages_published: u64,
    pub messages_delivered: u64,
    pub auth_success_total: u64,
    pub auth_failure_total: u64,
    pub legacy_header_auth_total: u64,
    pub topic_subscribe_total: u64,
    pub topic_unsubscribe_total: u64,
    pub topic_unsubscribe_error_total: u64,
    pub active_topic_listeners: u64,
    pub ws_ping_sent_total: u64,
    pub ws_pong_received_total: u64,
    pub ws_keepalive_timeout_total: u64,
    pub grpc_keepalive_timeout_total: u64,
}

impl MetricsSnapshot {
    pub open spec fn count(self, c: Counter) -> u64 {
        match c {
            Counter::Connections => self.connections,
            Counter::MessagesPublished => self.messages_published,
            Counter::MessagesDelivered => self.messages_delivered,
            Counter::AuthSuccessTotal => self.auth_success_total,
            Counter::AuthFailureTotal => self.auth_failure_total,
            Counter::LegacyHeaderAuthTotal => self.legacy_header_auth_total,
            Counter::TopicSubscribeTotal => self.topic_subscribe_total,
            Counter::TopicUnsubscribeTotal => self.topic_unsubscribe_total,
            Counter::TopicUnsubscribeErrorTotal => self.topic_unsubscribe_error_total,
            Counter::ActiveTopicListeners => self.active_topic_listeners,
            Counter::WsPingSentTotal => self.ws_ping_sent_total,
            Counter::WsPongReceivedTotal => self.ws_pong_received_total,
            Counter::WsKeepaliveTimeoutTotal => self.ws_keepalive_timeout_total,
            Counter::GrpcKeepaliveTimeoutTotal => self.grpc_keepalive_timeout_total,
        }
    }
}

impl Metrics {
    pub open spec fn count(self, c: Counter) -> u64 {
        match c {
            Counter::Connections => self.connections,
            Counter::MessagesPublished => self.messages_published,
            Counter::MessagesDelivered => self.messages_delivered,
            Counter::AuthSuccessTotal => self.auth_success_total,
            Counter::AuthFailureTotal => self.auth_failure_total,
            Counter::LegacyHeaderAuthTotal => self.legacy_header_auth_total,
            Counter::TopicSubscribeTotal => self.topic_subscribe_total,
            Counter::TopicUnsubscribeTotal => self.topic_unsubscribe_total,
            Counter::TopicUnsubscribeErrorTotal => self.topic_unsubscribe_error_total,
            Counter::ActiveTopicListeners => self.active_topic_listeners,
            Counter::WsPingSentTotal => self.ws_ping_sent_total,
            Counter::WsPongReceivedTotal => self.ws_pong_received_total,
            Counter::WsKeepaliveTimeoutTotal => self.ws_keepalive_timeout_total,
            Counter::GrpcKeepaliveTimeoutTotal => self.grpc_keepalive_timeout_total,
        }
    }

    /// All counters at zero.
    pub fn new() -> (m: Self)
        ensures
            forall|c: Counter| m.count(c) == 0,
    {
        Self {
            connections: 0,
            messages_published: 0,
            messages_delivered: 0,
            auth_success_total: 0,
            auth_failure_total: 0,
            legacy_header_auth_total: 0,
            topic_subscribe_total: 0,
            topic_unsubscribe_total: 0,
            topic_unsubscribe_error_total: 0,
            active_topic_listeners: 0,
            ws_ping_sent_total: 0,
            ws_pong_received_total: 0,
            ws_keepalive_timeout_total: 0,
            grpc_keepalive_timeout_total: 0,
        }
    }

    pub fn get(&self, c: Counter) -> (v: u64)
        ensures
            v == self.count(c),
    {
        match c {
            Counter::Connections => self.connections,
            Counter::MessagesPublished => self.messages_published,
            Counter::MessagesDelivered => self.messages_delivered,
            Counter::AuthSuccessTotal => self.auth_success_total,
            Counter::AuthFailureTotal => self.auth_failure_total,
            Counter::LegacyHeaderAuthTotal => self.legacy_header_auth_total,
            Counter::TopicSubscribeTotal => self.topic_subscribe_total,
            Counter::TopicUnsubscribeTotal => self.topic_unsubscribe_total,
            Counter::TopicUnsubscribeErrorTotal => self.topic_unsubscribe_error_total,
            Counter::ActiveTopicListeners => self.active_topic_listeners,
            Counter::WsPingSentTotal => self.ws_ping_sent_total,
            Counter::WsPongReceivedTotal => self.ws_pong_received_total,
            Counter::WsKeepaliveTimeoutTotal => self.ws_keepalive_timeout_total,
            Counter::GrpcKeepaliveTimeoutTotal => self.grpc_keepalive_timeout_total,
        }
    }

    fn set(&mut self, c: Counter, v: u64)
        ensures
            final(self).count(c) == v,
            forall|d: Counter| d != c ==> final(self).count(d) == old(self).count(d),
    {
        match c {
            Counter::Connections => self.connections = v,
            Counter::MessagesPublished => self.messages_published = v,
            Counter::MessagesDelivered => self.messages_delivered = v,
            Counter::AuthSuccessTotal => self.auth_success_total = v,
            Counter::AuthFailureTotal => self.auth_failure_total = v,
            Counter::LegacyHeaderAuthTotal => self.legacy_header_auth_total = v,
            Counter::TopicSubscribeTotal => self.topic_subscribe_total = v,
            Counter::TopicUnsubscribeTotal => self.topic_unsubscribe_total = v,
            Counter::TopicUnsubscribeErrorTotal => self.topic_unsubscribe_error_total = v,
            Counter::ActiveTopicListeners => self.active_topic_listeners = v,
            Counter::WsPingSentTotal => self.ws_ping_sent_total = v,
            Counter::WsPongReceivedTotal => self.ws_pong_received_total = v,
            Counter::WsKeepaliveTimeoutTotal => self.ws_keepalive_timeout_total = v,
            Counter::GrpcKeepaliveTimeoutTotal => self.grpc_keepalive_timeout_total = v,
        }
    }

    /// Counts one more event.
    pub fn increment(&mut self, c: Counter)
        ensures
            final(self).count(c) == bumped(old(self).count(c)),
            forall|d: Counter| d != c ==> final(self).count(d) == old(self).count(d),
    {
        let v = self.get(c);
        let n = if v == u64::MAX { 0 } else { v + 1 };
        self.set(c, n);
    }

    /// Takes one event back.
    pub fn decrement(&mut self, c: Counter)
        ensures
            final(self).count(c) == lowered(old(self).count(c)),
            forall|d: Counter| d != c ==> final(self).count(d) == old(self).count(d),
    {
        let v = self.get(c);
        let n = if v == 0 { u64::MAX } else { v - 1 };
        self.set(c, n);
    }

    /// Every counter as it stands.
    pub fn snapshot(&self) -> (s: MetricsSnapshot)
        ensures
            forall|c: Counter| s.count(c) == self.count(c),
    {
        MetricsSnapshot {
            connections: self.connections,
            messages_published: self.messages_published,
            messages_delivered: self.messages_delivered,
            auth_success_total: self.auth_success_total,
            auth_failure_total: self.auth_failure_total,
            legacy_header_auth_total: self.legacy_header_auth_total,
            topic_subscribe_total: self.topic_subscribe_total,
            topic_unsubscribe_total: self.topic_unsubscribe_total,
            topic_unsubscribe_error_total: self.topic_unsubscribe_error_total,
            active_topic_listeners: self.active_topic_listeners,
            ws_ping_sent_total: self.ws_ping_sent_total,
            ws_pong_received_total: self.ws_pong_received_total,
            ws_keepalive_timeout_total: self.ws_keepalive_timeout_total,
            grpc_keepalive_timeout_total: self.grpc_keepalive_timeout_total,
        }
    }
}

} // verus!
