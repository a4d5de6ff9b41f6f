use propeller::config::ClientConfig;
use propeller::error::PropellerError;
use propeller::headers::Headers;
use propeller::metrics::{Counter, Metrics};
use propeller::push::{
    device_from_entry, device_record_value, devices_loaded, disconnected, distinct_attributes, published, subscribed,
    topic_changed, device_from_headers, device_store_key, BatchStep, Device, GetActiveDevicesRequest, PushService, SendEventToClientDeviceRequest,
    SendEventToClientRequest, SendEventToTopicRequest,
};

fn client_config(devices: bool) -> ClientConfig {
    ClientConfig {
        header: "x-client-id".to_string(),
        device_header: "x-device-id".to_string(),
        enable_device_support: devices,
        device_attribute_headers: vec!["x-os".to_string(), "x-app".to_string(), "x-os".to_string()],
    }
}

fn device(id: &str) -> Device {
    Device { id: id.to_string(), attributes: vec![] }
}

fn msg(e: PropellerError) -> String {
    e.to_string()
}

#[test]
fn subscription_plans() {
    let svc = PushService::new(client_config(true));
    let plan = svc.subscribe_client("t1", "u1", Some(&device("d1"))).unwrap();
    assert_eq!(plan.channels, vec!["tenant:t1:client:u1", "tenant:t1:client:u1:device:d1"]);
    let entry = plan.device_entry.unwrap();
    assert_eq!((entry.key.as_str(), entry.field.as_str()), ("t1:u1", "d1"));
    let plan = svc.subscribe_client("t1", "u1", None).unwrap();
    assert_eq!(plan.channels, vec!["tenant:t1:client:u1"]);
    assert!(plan.device_entry.is_none());
    assert_eq!(msg(svc.subscribe_client("", "u1", None).unwrap_err()), "invalid argument: tenant id is required");
    assert_eq!(msg(svc.subscribe_client("t1", "", None).unwrap_err()), "invalid argument: client id is required");
    assert_eq!(
        msg(svc.subscribe_client("t1", "u1", Some(&device(""))).unwrap_err()),
        "invalid argument: device id is required when device support is enabled"
    );
    let no_devices = PushService::new(client_config(false));
    let plan = no_devices.subscribe_client("t1", "u1", Some(&device(""))).unwrap();
    assert_eq!(plan.channels.len(), 1);
    assert!(plan.device_entry.is_none());
}

#[test]
fn unsubscribe_removes_the_entry_subscribe_recorded() {
    let svc = PushService::new(client_config(true));
    let d = device("d1");
    let stored = svc.subscribe_client("t1", "u1", Some(&d)).unwrap().device_entry.unwrap();
    let removed = svc.unsubscribe_client("t1", "u1", Some(&d)).unwrap();
    assert_eq!((stored.key, stored.field), (removed.key.clone(), removed.field));
    let listed = svc
        .get_active_devices(&GetActiveDevicesRequest { tenant_id: "t1".to_string(), client_id: "u1".to_string() })
        .unwrap();
    assert_eq!(listed, removed.key);
    assert!(PushService::new(client_config(false)).unsubscribe_client("t1", "u1", Some(&d)).is_none());
    assert_eq!(device_store_key("t1", "u1"), "t1:u1");
}

#[test]
fn publishing_targets_and_refusals() {
    let svc = PushService::new(client_config(true));
    let p = svc
        .publish_to_client(&SendEventToClientRequest {
            tenant_id: "t".to_string(),
            client_id: "c".to_string(),
            event_name: "payment.confirmed".to_string(),
            event: b"{}".to_vec(),
        })
        .unwrap();
    assert_eq!((p.channel.as_str(), p.event.as_slice()), ("tenant:t:client:c", &b"{}"[..]));
    let empty = SendEventToClientRequest { tenant_id: "t".to_string(), client_id: "c".to_string(), event_name: String::new(), event: vec![] };
    assert_eq!(msg(svc.publish_to_client(&empty).unwrap_err()), "invalid argument: event is empty");

    let dev_req = |tenant: &str, client: &str, dev: &str, ev: &[u8]| SendEventToClientDeviceRequest {
        tenant_id: tenant.to_string(),
        client_id: client.to_string(),
        device_id: dev.to_string(),
        event_name: "e".to_string(),
        event: ev.to_vec(),
    };
    let p = svc.publish_to_client_device(&dev_req("t", "c", "d", b"x")).unwrap();
    assert_eq!(p.channel, "tenant:t:client:c:device:d");
    assert_eq!(msg(svc.publish_to_client_device(&dev_req("t", "c", "", b"x")).unwrap_err()), "invalid argument: device id is empty");
    assert_eq!(msg(svc.publish_to_client_device(&dev_req("t", "", "d", b"x")).unwrap_err()), "invalid argument: client id is empty");
    assert_eq!(
        msg(PushService::new(client_config(false)).publish_to_client_device(&dev_req("t", "c", "d", b"x")).unwrap_err()),
        "failed precondition: device support is disabled"
    );
}

fn topic_req(tenant: &str, topic: &str, ev: &[u8]) -> SendEventToTopicRequest {
    SendEventToTopicRequest { tenant_id: tenant.to_string(), topic: topic.to_string(), event_name: "e".to_string(), event: ev.to_vec() }
}

#[test]
fn topic_batches_stop_at_the_first_refusal() {
    let svc = PushService::new(client_config(true));
    let batch = svc.publish_to_topics(&vec![topic_req("t", "a", b"1"), topic_req("t", "b", b"2"), topic_req("t", "", b"3"), topic_req("t", "d", b"4")]);
    let channels: Vec<&str> = batch.publishes.iter().map(|p| p.channel.as_str()).collect();
    assert_eq!(channels, vec!["tenant:t:topic:a", "tenant:t:topic:b"]);
    assert_eq!(msg(batch.stopped.unwrap()), "invalid argument: topic is empty");
    let batch = svc.publish_to_topics(&vec![topic_req("t", "a", b"1")]);
    assert_eq!(batch.publishes.len(), 1);
    assert!(batch.stopped.is_none());
    assert_eq!(msg(svc.publish_to_topic(&topic_req("", "a", b"1")).unwrap_err()), "invalid argument: tenant id is empty");
}

#[test]
fn topic_membership_changes() {
    let svc = PushService::new(client_config(true));
    assert_eq!(svc.topic_subscribe("t", "payment").unwrap(), "tenant:t:topic:payment");
    assert_eq!(svc.topic_unsubscribe("t", "payment").unwrap(), svc.topic_subscribe("t", "payment").unwrap());
    assert_eq!(msg(svc.topic_subscribe("", "").unwrap_err()), "invalid argument: topic is empty");
    assert_eq!(msg(svc.topic_unsubscribe("", "x").unwrap_err()), "invalid argument: tenant id is empty");
}

#[test]
fn listing_devices_needs_device_support_and_ids() {
    let req = |t: &str, c: &str| GetActiveDevicesRequest { tenant_id: t.to_string(), client_id: c.to_string() };
    let svc = PushService::new(client_config(true));
    assert_eq!(svc.get_active_devices(&req("t", "c")).unwrap(), "t:c");
    assert_eq!(msg(svc.get_active_devices(&req("t", "")).unwrap_err()), "invalid argument: client id is empty");
    assert_eq!(msg(svc.get_active_devices(&req("", "c")).unwrap_err()), "invalid argument: tenant id is empty");
    assert_eq!(
        msg(PushService::new(client_config(false)).get_active_devices(&req("t", "c")).unwrap_err()),
        "failed precondition: device support is disabled"
    );
}

#[test]
fn announced_devices() {
    let mut h = Headers::new();
    h.append("x-device-id", "iphone-15");
    h.append("X-OS", "ios");
    let d = device_from_headers(&client_config(true), &h).unwrap();
    assert_eq!(d.id, "iphone-15");
    assert_eq!(d.attributes, vec![("x-os".to_string(), "ios".to_string())]);
    assert!(device_from_headers(&client_config(false), &h).is_none());
    let mut h = Headers::new();
    h.append("x-device-id", "");
    assert!(device_from_headers(&client_config(true), &h).is_none());
}

#[test]
fn counters_wrap_and_snapshot() {
    let mut m = Metrics::new();
    assert_eq!(m.snapshot().connections, 0);
    m.increment(Counter::Connections);
    m.increment(Counter::Connections);
    m.decrement(Counter::Connections);
    assert_eq!(m.get(Counter::Connections), 1);
    m.decrement(Counter::Connections);
    m.decrement(Counter::Connections);
    assert_eq!(m.get(Counter::Connections), u64::MAX);
    m.increment(Counter::Connections);
    assert_eq!(m.snapshot().connections, 0);
    m.increment(Counter::MessagesPublished);
    let s = m.snapshot();
    assert_eq!((s.messages_published, s.messages_delivered), (1, 0));
}

fn client_request(tenant: &str, client: &str) -> SendEventToClientRequest {
    SendEventToClientRequest {
        tenant_id: tenant.to_string(),
        client_id: client.to_string(),
        event_name: "payment.confirmed".to_string(),
        event: vec![1, 2, 3],
    }
}

fn device_request(tenant: &str, client: &str, device_id: &str) -> SendEventToClientDeviceRequest {
    SendEventToClientDeviceRequest {
        tenant_id: tenant.to_string(),
        client_id: client.to_string(),
        device_id: device_id.to_string(),
        event_name: "payment.confirmed".to_string(),
        event: vec![4],
    }
}

#[test]
fn events_reach_their_subscriber() {
    let svc = PushService::new(client_config(true));
    let plan = svc.subscribe_client("t1", "u1", Some(&device("d1"))).unwrap();
    let to_client = svc.publish_to_client(&client_request("t1", "u1")).unwrap();
    let to_device = svc.publish_to_client_device(&device_request("t1", "u1", "d1")).unwrap();
    assert!(plan.channels.contains(&to_client.channel));
    assert!(plan.channels.contains(&to_device.channel));
}

#[test]
fn events_reach_only_their_subscriber() {
    let svc = PushService::new(client_config(true));
    let other_client = svc.subscribe_client("t1", "u2", Some(&device("d1"))).unwrap();
    let other_tenant = svc.subscribe_client("t2", "u1", Some(&device("d1"))).unwrap();
    let same_client_other_device = svc.subscribe_client("t1", "u1", Some(&device("d2"))).unwrap();
    let to_client = svc.publish_to_client(&client_request("t1", "u1")).unwrap();
    let to_device = svc.publish_to_client_device(&device_request("t1", "u1", "d1")).unwrap();
    let to_topic = svc
        .publish_to_topic(&SendEventToTopicRequest {
            tenant_id: "t1".to_string(),
            topic: "u1".to_string(),
            event_name: "offers".to_string(),
            event: vec![9],
        })
        .unwrap();
    assert!(!other_client.channels.contains(&to_client.channel));
    assert!(!other_tenant.channels.contains(&to_client.channel));
    assert!(!other_client.channels.contains(&to_device.channel));
    assert!(!other_tenant.channels.contains(&to_device.channel));
    assert!(!same_client_other_device.channels.contains(&to_device.channel));
    assert!(same_client_other_device.channels.contains(&to_client.channel));
    assert!(!same_client_other_device.channels.contains(&to_topic.channel));
}

#[test]
fn recorded_device_is_listed() {
    let svc = PushService::new(client_config(true));
    let entry = svc.subscribe_client("t1", "u1", Some(&device("d1"))).unwrap().device_entry.unwrap();
    let key = svc
        .get_active_devices(&GetActiveDevicesRequest { tenant_id: "t1".to_string(), client_id: "u1".to_string() })
        .unwrap();
    assert_eq!(entry.key, key);
    assert_eq!(entry.field, "d1");
}

#[test]
fn connection_count_restored() {
    let mut m = Metrics::new();
    m.increment(Counter::MessagesDelivered);
    m.increment(Counter::Connections);
    let before = m.snapshot();
    m.increment(Counter::Connections);
    m.decrement(Counter::Connections);
    let after = m.snapshot();
    assert_eq!(
        (after.connections, after.messages_delivered, after.messages_published),
        (before.connections, before.messages_delivered, before.messages_published)
    );
    assert_eq!(after.connections, 1);
}

fn sorted(mut v: Vec<(String, String)>) -> Vec<(String, String)> {
    v.sort();
    v
}

fn pair(k: &str, v: &str) -> (String, String) {
    (k.to_string(), v.to_string())
}

#[test]
fn listed_device_matches_announced() {
    let svc = PushService::new(client_config(true));
    let d = Device { id: "iphone-15".to_string(), attributes: vec![pair("x-os", "ios \"17\""), pair("x-app", "2.1\n")] };
    let plan = svc.subscribe_client("t1", "u1", Some(&d)).unwrap();
    let value = plan.device_value.unwrap();
    let entry = plan.device_entry.unwrap();
    let listed = device_from_entry(entry.field, &value);
    assert_eq!(listed.id, "iphone-15");
    assert_eq!(sorted(listed.attributes), sorted(d.attributes.clone()));
    assert!(svc.subscribe_client("t1", "u1", None).unwrap().device_value.is_none());
}

#[test]
fn device_records_keep_first_attribute_and_tolerate_bad_json() {
    let d = Device { id: "d".to_string(), attributes: vec![pair("a", "1"), pair("b", "2"), pair("a", "3")] };
    assert_eq!(sorted(distinct_attributes(&d.attributes)), vec![pair("a", "1"), pair("b", "2")]);
    let listed = device_from_entry("d".to_string(), &device_record_value(&d));
    assert_eq!(sorted(listed.attributes), vec![pair("a", "1"), pair("b", "2")]);
    assert!(device_from_entry("d".to_string(), "not json").attributes.is_empty());
    assert!(device_from_entry("d".to_string(), "{\"a\": 1}").attributes.is_empty());
    assert_eq!(device_from_entry("d".to_string(), "{}").attributes, vec![]);
}

#[test]
fn store_outcomes_and_counters() {
    let mut m = Metrics::new();
    assert_eq!(subscribed(Ok(7u32), &mut m).unwrap(), 7);
    assert_eq!(m.get(Counter::Connections), 1);
    assert_eq!(subscribed::<u32>(Err("down".to_string()), &mut m).unwrap_err().to_string(), "internal: down");
    assert_eq!(m.get(Counter::Connections), 1);
    disconnected(&mut m);
    assert_eq!(m.get(Counter::Connections), 0);
    assert!(published(Ok(()), &mut m).is_ok());
    assert_eq!(published(Err("timeout".to_string()), &mut m).unwrap_err().to_string(), "broker error: timeout");
    assert_eq!(m.get(Counter::MessagesPublished), 1);
    assert!(topic_changed(Ok(())).is_ok());
    assert_eq!(topic_changed(Err("gone".to_string())).unwrap_err().to_string(), "internal: gone");
    let devices = devices_loaded(Ok(vec![pair("d1", "{\"x-os\":\"ios\"}"), pair("d2", "oops")])).unwrap();
    assert_eq!(devices.len(), 2);
    assert_eq!((devices[0].id.as_str(), devices[0].attributes.clone()), ("d1", vec![pair("x-os", "ios")]));
    assert!(devices[1].attributes.is_empty());
    assert_eq!(devices_loaded(Err("no kv".to_string())).unwrap_err().to_string(), "internal: no kv");
}

fn topic_request(topic: &str) -> SendEventToTopicRequest {
    SendEventToTopicRequest { tenant_id: "t".to_string(), topic: topic.to_string(), event_name: "e".to_string(), event: vec![1] }
}

#[test]
fn topic_batches_stop_at_the_first_failure() {
    let svc = PushService::new(client_config(true));
    let mut m = Metrics::new();
    let mut batch = svc.publish_to_topics(&vec![topic_request("a"), topic_request("b"), topic_request("")]);
    assert_eq!(batch.publishes.len(), 2);
    assert!(matches!(batch.begin(), BatchStep::Continue));
    assert!(matches!(batch.answered(0, Ok(()), &mut m), BatchStep::Continue));
    match batch.answered(1, Ok(()), &mut m) {
        BatchStep::Finished(Err(e)) => assert_eq!(e.to_string(), "invalid argument: topic is empty"),
        other => panic!("unexpected step {:?}", other),
    }
    assert_eq!(m.get(Counter::MessagesPublished), 2);

    let mut batch = svc.publish_to_topics(&vec![topic_request("a"), topic_request("b")]);
    assert!(matches!(batch.begin(), BatchStep::Continue));
    match batch.answered(0, Err("down".to_string()), &mut m) {
        BatchStep::Finished(Err(e)) => assert_eq!(e.to_string(), "broker error: down"),
        other => panic!("unexpected step {:?}", other),
    }
    assert_eq!(m.get(Counter::MessagesPublished), 2);

    let mut empty = svc.publish_to_topics(&vec![]);
    assert!(matches!(empty.begin(), BatchStep::Finished(Ok(()))));
    let mut refused = svc.publish_to_topics(&vec![topic_request("")]);
    assert!(matches!(refused.begin(), BatchStep::Finished(Err(_))));
    let mut all_ok = svc.publish_to_topics(&vec![topic_request("a")]);
    assert!(matches!(all_ok.begin(), BatchStep::Continue));
    assert!(matches!(all_ok.answered(0, Ok(()), &mut m), BatchStep::Finished(Ok(()))));
}
