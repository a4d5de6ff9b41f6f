use propeller::auth::{AuthContext, AuthService, AuthStep};
use propeller::config::{AuthConfig, ClientConfig, KeepaliveConfig};
use propeller::error::PropellerError;
use propeller::grpc::{
    active_devices_response, client_event_request, connect_ack, deliver_event, device_event_request, err_status,
    extract_event, ok_status, plan_client_request, record_auth, resolve_device_owner, subscription_ack,
    topic_event_request, topics_event_requests, unsubscription_ack, ChannelAction, ChannelInput, ChannelRequest,
    ChannelResponse, ChannelSession, ClientRequestPlan, Event, GrpcPushHandler,
};
use propeller::headers::Headers;
use propeller::metrics::{Counter, Metrics};
use propeller::push::{Device, PushService, TopicEvent};
use propeller::ws::{ws_connect_ack_frame, ws_event_frame, ws_should_stop, KeepaliveAction, WsAction, WsInbound, WsInput, WsKeepalive, WsState};

fn cc() -> ClientConfig {
    ClientConfig {
        header: "x-client-id".to_string(),
        device_header: "x-device-id".to_string(),
        enable_device_support: true,
        device_attribute_headers: vec![],
    }
}

fn ctx(tenant: &str, client: &str) -> AuthContext {
    AuthContext { subject: client.to_string(), tenant_id: tenant.to_string(), client_id: client.to_string(), scopes: vec![] }
}

fn legacy_auth() -> AuthService {
    let mut a = AuthConfig::default();
    a.api_keys = vec!["k1".to_string()];
    AuthService::new(a)
}

fn handler() -> GrpcPushHandler {
    GrpcPushHandler::new(
        PushService::new(cc()),
        legacy_auth(),
        cc(),
        KeepaliveConfig { ws_ping_interval_secs: 30, ws_pong_timeout_secs: 10, grpc_stream_idle_timeout_secs: 90 },
    )
}

#[test]
fn statuses_and_events() {
    let ok = ok_status();
    assert!(ok.success && ok.message.is_empty() && ok.error_code.is_empty() && ok.error_type.is_empty());
    let err = err_status("boom");
    assert!(!err.success);
    assert_eq!(err.message, vec![("message".to_string(), "boom".to_string())]);
    let (bytes, name) = extract_event(&Some(Event { name: "n".to_string(), format_type: 1, data: vec![1, 2] }));
    assert_eq!((bytes, name.as_str()), (vec![1, 2], "n"));
    let (bytes, name) = extract_event(&None);
    assert!(bytes.is_empty() && name.is_empty());
    assert!(matches!(connect_ack(), ChannelResponse::ConnectAck { status } if status.success));
}

#[test]
fn auth_outcomes_are_counted() {
    let mut m = Metrics::new();
    record_auth(&mut m, &Ok((ctx("t", "c"), true)));
    record_auth(&mut m, &Ok((ctx("t", "c"), false)));
    record_auth(&mut m, &Err(PropellerError::unauthenticated("x")));
    assert_eq!(m.get(Counter::AuthSuccessTotal), 2);
    assert_eq!(m.get(Counter::LegacyHeaderAuthTotal), 1);
    assert_eq!(m.get(Counter::AuthFailureTotal), 1);
}

#[test]
fn client_frames_and_acks() {
    let push = PushService::new(cc());
    let mut m = Metrics::new();
    match plan_client_request(&push, "t", ChannelRequest::TopicSubscription { topic: "payment".to_string() }) {
        ClientRequestPlan::Subscribe { topic, channel } => {
            assert_eq!(topic, "payment");
            assert_eq!(channel.unwrap(), "tenant:t:topic:payment");
        }
        other => panic!("unexpected plan {:?}", other),
    }
    match plan_client_request(&push, "t", ChannelRequest::TopicUnsubscription { topic: String::new() }) {
        ClientRequestPlan::Unsubscribe { channel, .. } => {
            assert_eq!(channel.unwrap_err().to_string(), "invalid argument: topic is empty")
        }
        other => panic!("unexpected plan {:?}", other),
    }
    assert!(matches!(plan_client_request(&push, "t", ChannelRequest::ChannelEventAck), ClientRequestPlan::Ignore));

    let ack = subscription_ack("payment".to_string(), &Ok(()), &mut m);
    assert!(matches!(ack, ChannelResponse::TopicSubscriptionAck { ref topic, ref status } if topic == "payment" && status.success));
    let ack = unsubscription_ack("x".to_string(), &Err(PropellerError::Internal("gone".to_string())), &mut m);
    match ack {
        ChannelResponse::TopicUnsubscriptionAck { status, .. } => {
            assert_eq!(status.message[0].1, "internal: gone");
        }
        other => panic!("unexpected ack {:?}", other),
    }
    assert_eq!(m.get(Counter::TopicSubscribeTotal), 1);
    assert_eq!(m.get(Counter::TopicUnsubscribeErrorTotal), 1);
    assert_eq!(m.get(Counter::TopicUnsubscribeTotal), 0);

    let delivered = deliver_event(TopicEvent { topic: "tenant:t:topic:p".to_string(), event: b"hi".to_vec() }, &mut m);
    match delivered {
        ChannelResponse::ChannelEvent { event, topic } => {
            assert_eq!(topic, "tenant:t:topic:p");
            assert_eq!(event.data, b"hi");
            assert!(event.name.is_empty());
        }
        other => panic!("unexpected frame {:?}", other),
    }
    assert_eq!(m.get(Counter::MessagesDelivered), 1);
}

#[test]
fn idle_streams_time_out() {
    let mut m = Metrics::new();
    let mut s = ChannelSession::new(2, 1_000);
    assert!(!s.on_tick(2_000_001_000, &mut m));
    assert!(s.on_tick(2_000_001_001, &mut m));
    s.on_inbound(2_000_001_001);
    assert!(!s.idle_expired(3_000_000_000));
    assert!(!s.idle_expired(5));
    assert_eq!(m.get(Counter::GrpcKeepaliveTimeoutTotal), 1);
}

#[test]
fn publishers_publish_into_their_own_tenant() {
    let publisher = ctx("acme", "backend");
    let ev = Some(Event { name: "payment.confirmed".to_string(), format_type: 0, data: b"{}".to_vec() });
    let r = client_event_request(&publisher, "u1".to_string(), &ev);
    assert_eq!((r.tenant_id.as_str(), r.client_id.as_str(), r.event_name.as_str()), ("acme", "u1", "payment.confirmed"));
    let r = device_event_request(&publisher, "u1".to_string(), "d1".to_string(), &None);
    assert_eq!((r.tenant_id.as_str(), r.device_id.as_str()), ("acme", "d1"));
    assert!(r.event.is_empty());
    let r = topic_event_request(&publisher, "orders".to_string(), &ev);
    assert_eq!((r.tenant_id.as_str(), r.topic.as_str()), ("acme", "orders"));
    let rs = topics_event_requests(&publisher, vec![("a".to_string(), None), ("b".to_string(), ev)]);
    assert_eq!(rs.len(), 2);
    assert!(rs.iter().all(|r| r.tenant_id == "acme"));
    assert_eq!(rs[1].event, b"{}");
}

#[test]
fn device_listing_is_limited_to_the_viewer() {
    let viewer = ctx("t", "me");
    assert_eq!(resolve_device_owner(&viewer, String::new()).unwrap(), "me");
    assert_eq!(resolve_device_owner(&viewer, "me".to_string()).unwrap(), "me");
    assert_eq!(
        resolve_device_owner(&viewer, "you".to_string()).unwrap_err().to_string(),
        "permission denied: client id mismatch"
    );
    let req = handler().devices_request(&viewer, String::new()).unwrap();
    assert_eq!((req.tenant_id.as_str(), req.client_id.as_str()), ("t", "me"));
    let resp = active_devices_response(vec![Device { id: "d".to_string(), attributes: vec![] }]);
    assert!(resp.is_client_online && resp.status.success);
    assert!(!active_devices_response(vec![]).is_client_online);
}

#[test]
fn publisher_needs_a_key_before_a_token() {
    let h = handler();
    let mut md = Headers::new();
    md.append("x-client-id", "backend");
    match h.authorize_publisher(&md) {
        AuthStep::Decided(Err(e)) => assert_eq!(e.to_string(), "unauthenticated: missing x-api-key"),
        other => panic!("unexpected step {:?}", other),
    }
    md.append("x-api-key", "k1");
    match h.authorize_publisher(&md) {
        AuthStep::Decided(Ok((c, legacy))) => {
            assert!(legacy);
            assert_eq!(c.client_id, "backend");
        }
        other => panic!("unexpected step {:?}", other),
    }
    md.append("x-device-id", "pixel");
    assert_eq!(h.extract_device(&md).unwrap().id, "pixel");
}

#[test]
fn websocket_decisions() {
    assert!(ws_should_stop(&WsInbound::Close));
    assert!(ws_should_stop(&WsInbound::Ended));
    assert!(ws_should_stop(&WsInbound::Error));
    assert!(!ws_should_stop(&WsInbound::Text("hi".to_string())));
    assert!(!ws_should_stop(&WsInbound::Other));
    assert!(!ws_should_stop(&WsInbound::Pong));
    let ws = WsState::new(PushService::new(cc()), legacy_auth(), cc());
    assert!(ws.admits("u1"));
    assert!(!ws.admits(""));
    let mut h = Headers::new();
    h.append("x-client-id", "u1");
    h.append("x-device-id", "tab");
    match ws.connect_auth(&h) {
        AuthStep::Decided(Ok((c, legacy))) => assert!(legacy && c.tenant_id == "legacy"),
        other => panic!("unexpected step {:?}", other),
    }
    assert_eq!(ws.connect_device(&h).unwrap().id, "tab");
}

#[test]
fn websocket_ping_pong_keepalive() {
    let sec = 1_000_000_000u64;
    let mut m = Metrics::new();
    let mut k = WsKeepalive::new(30, 10, 0);
    assert_eq!(k.on_tick(29 * sec, &mut m), KeepaliveAction::Nothing);
    assert_eq!(k.on_tick(30 * sec, &mut m), KeepaliveAction::SendPing);
    assert!(k.awaiting_pong);
    assert_eq!(k.on_tick(40 * sec, &mut m), KeepaliveAction::Nothing);
    k.on_pong(&mut m);
    assert_eq!(k.on_tick(45 * sec, &mut m), KeepaliveAction::Nothing);
    assert_eq!(k.on_tick(60 * sec, &mut m), KeepaliveAction::SendPing);
    assert_eq!(k.on_tick(70 * sec + 1, &mut m), KeepaliveAction::Close);
    assert_eq!(m.get(Counter::WsPingSentTotal), 2);
    assert_eq!(m.get(Counter::WsPongReceivedTotal), 1);
    assert_eq!(m.get(Counter::WsKeepaliveTimeoutTotal), 1);
}

#[test]
fn channel_stream_steps() {
    let sec = 1_000_000_000u64;
    let svc = PushService::new(cc());
    let mut m = Metrics::new();
    let mut s = ChannelSession::new(5, 0);
    let a = s.step(&svc, "t1", ChannelInput::ClientFrame(ChannelRequest::TopicSubscription { topic: "offers".to_string() }), 3 * sec, &mut m);
    match a {
        ChannelAction::Carry(ClientRequestPlan::Subscribe { topic, channel }) => {
            assert_eq!(topic, "offers");
            assert_eq!(channel.unwrap(), "tenant:t1:topic:offers");
        }
        other => panic!("unexpected action {:?}", other),
    }
    assert_eq!(s.last_inbound_ns, 3 * sec);
    let a = s.step(&svc, "t1", ChannelInput::ClientFrame(ChannelRequest::TopicUnsubscription { topic: String::new() }), 4 * sec, &mut m);
    match a {
        ChannelAction::Carry(ClientRequestPlan::Unsubscribe { channel, .. }) => {
            assert_eq!(channel.unwrap_err().to_string(), "invalid argument: topic is empty")
        }
        other => panic!("unexpected action {:?}", other),
    }
    assert!(matches!(s.step(&svc, "t1", ChannelInput::ClientFrame(ChannelRequest::ChannelEventAck), 5 * sec, &mut m), ChannelAction::Continue));
    let ev = TopicEvent { topic: "tenant:t1:client:u1".to_string(), event: vec![7] };
    match s.step(&svc, "t1", ChannelInput::BrokerEvent(ev), 6 * sec, &mut m) {
        ChannelAction::Send(ChannelResponse::ChannelEvent { event, topic }) => {
            assert_eq!(topic, "tenant:t1:client:u1");
            assert_eq!(event.data, vec![7]);
        }
        other => panic!("unexpected action {:?}", other),
    }
    assert_eq!(m.get(Counter::MessagesDelivered), 1);
    assert!(matches!(s.step(&svc, "t1", ChannelInput::Tick, 10 * sec, &mut m), ChannelAction::Continue));
    assert!(matches!(s.step(&svc, "t1", ChannelInput::Tick, 10 * sec + 1, &mut m), ChannelAction::CloseIdle));
    assert_eq!(m.get(Counter::GrpcKeepaliveTimeoutTotal), 1);
    assert!(matches!(s.step(&svc, "t1", ChannelInput::ClientEnded, 11 * sec, &mut m), ChannelAction::Close));
    assert!(matches!(s.step(&svc, "t1", ChannelInput::ClientFailed, 11 * sec, &mut m), ChannelAction::Close));
    assert!(matches!(s.step(&svc, "t1", ChannelInput::BrokerEnded, 11 * sec, &mut m), ChannelAction::Close));
    assert_eq!(s.last_inbound_ns, 5 * sec);
}

#[test]
fn websocket_steps() {
    let sec = 1_000_000_000u64;
    let mut m = Metrics::new();
    let mut k = WsKeepalive::new(30, 10, 0);
    assert!(matches!(k.step(WsInput::Frame(WsInbound::Text("hi".to_string())), sec, &mut m), WsAction::Continue));
    assert!(matches!(k.step(WsInput::Tick, 30 * sec, &mut m), WsAction::SendPing));
    assert!(matches!(k.step(WsInput::Frame(WsInbound::Pong), 31 * sec, &mut m), WsAction::Continue));
    assert!(!k.awaiting_pong);
    let ev = TopicEvent { topic: "tenant:t1:client:u1".to_string(), event: b"paid".to_vec() };
    match k.step(WsInput::BrokerEvent(ev), 32 * sec, &mut m) {
        WsAction::Deliver(e) => assert_eq!((e.topic.as_str(), e.event.as_slice()), ("tenant:t1:client:u1", &b"paid"[..])),
        other => panic!("unexpected action {:?}", other),
    }
    assert!(matches!(k.step(WsInput::Tick, 60 * sec, &mut m), WsAction::SendPing));
    assert!(matches!(k.step(WsInput::Tick, 70 * sec + 1, &mut m), WsAction::CloseTimedOut));
    assert!(matches!(k.step(WsInput::Frame(WsInbound::Close), 71 * sec, &mut m), WsAction::Close));
    assert!(matches!(k.step(WsInput::Frame(WsInbound::Ended), 71 * sec, &mut m), WsAction::Close));
    assert!(matches!(k.step(WsInput::Frame(WsInbound::Error), 71 * sec, &mut m), WsAction::Close));
    assert!(matches!(k.step(WsInput::BrokerEnded, 71 * sec, &mut m), WsAction::Close));
    assert_eq!(m.get(Counter::WsPingSentTotal), 2);
    assert_eq!(m.get(Counter::WsPongReceivedTotal), 1);
    assert_eq!(m.get(Counter::WsKeepaliveTimeoutTotal), 1);
    assert_eq!(m.get(Counter::MessagesDelivered), 1);
}

#[test]
fn devices_of_another_client_are_refused() {
    let h = handler();
    let viewer = ctx("t1", "u1");
    let own = h.devices_request(&viewer, String::new()).unwrap();
    assert_eq!((own.tenant_id.as_str(), own.client_id.as_str()), ("t1", "u1"));
    let named = h.devices_request(&viewer, "u1".to_string()).unwrap();
    assert_eq!(named.client_id, "u1");
    match h.devices_request(&viewer, "u2".to_string()) {
        Err(err) => assert_eq!(err.to_string(), "permission denied: client id mismatch"),
        Ok(_) => panic!("another client's devices were listed"),
    }
}

#[test]
fn websocket_frames() {
    assert_eq!(ws_connect_ack_frame(), r#"{"status":{"success":true},"type":"connect_ack"}"#);
    let ev = TopicEvent { topic: "tenant:t:client:u".to_string(), event: b"say \"hi\"".to_vec() };
    assert_eq!(ws_event_frame(&ev), r#"{"data":"say \"hi\"","topic":"tenant:t:client:u","type":"event"}"#);
    let bad = TopicEvent { topic: "t".to_string(), event: vec![0xff, b'a'] };
    assert_eq!(ws_event_frame(&bad), "{\"data\":\"\u{fffd}a\",\"topic\":\"t\",\"type\":\"event\"}");
}
