use propeller::payments::{
    confirms_payment, idempotency_key, new_order_status, next_cursor, payments_confirmed_channel, settlement_ref,
    stream_payloads, webhook_action, webhook_stream, ApiError, GatewayWebhookEvent, MockGateway, PaymentGateway,
    PaymentMethod, PaymentStatus, SmartRouter, WebhookAction, CHECKOUT_TTL_NS,
};

const ORDER: u128 = 0x67e55044_10b1_426f_9247_bb680e5fe0c8;
const PAYMENT: u128 = 0x0000000a_000b_000c_000d_00000000000e;

fn event(signature: &str) -> GatewayWebhookEvent {
    GatewayWebhookEvent {
        event_id: "evt_1".to_string(),
        gateway: "Razorpay".to_string(),
        gateway_txn_id: "txn_1".to_string(),
        payment_id: PAYMENT,
        order_id: ORDER,
        status: PaymentStatus::Success,
        signature: signature.to_string(),
    }
}

#[test]
fn mock_checkout_session() {
    let g = MockGateway { gateway_name: "Razorpay", should_fail: false };
    let s = g.create_checkout(ORDER, PAYMENT, &PaymentMethod::Upi, 1_000).unwrap();
    assert_eq!(s.gateway, "Razorpay");
    assert_eq!(
        s.checkout_url,
        "https://mock-razorpay.example/checkout?order_id=67e55044-10b1-426f-9247-bb680e5fe0c8&payment_id=0000000a-000b-000c-000d-00000000000e"
    );
    assert_eq!(s.expires_at_ns, 1_000 + CHECKOUT_TTL_NS);
    assert_eq!(CHECKOUT_TTL_NS, 15 * 60 * 1_000_000_000);
    let down = MockGateway { gateway_name: "Juspay", should_fail: true };
    assert_eq!(down.create_checkout(ORDER, PAYMENT, &PaymentMethod::Card, 0).unwrap_err(), "Juspay unavailable");
    assert_eq!(g.fetch_payment_status(PAYMENT).unwrap(), PaymentStatus::Success);
    assert_eq!(g.name(), "Razorpay");
}

#[test]
fn webhook_signatures() {
    let g = MockGateway { gateway_name: "Razorpay", should_fail: false };
    assert!(g.verify_webhook_signature(&event("Razorpay:s3cret"), "s3cret"));
    assert!(!g.verify_webhook_signature(&event("Razorpay:other"), "s3cret"));
}

#[test]
fn router_falls_back_in_order() {
    let router = SmartRouter::new(vec![
        MockGateway { gateway_name: "Razorpay", should_fail: true },
        MockGateway { gateway_name: "Cashfree", should_fail: false },
        MockGateway { gateway_name: "Juspay", should_fail: false },
    ]);
    let s = router.pick_checkout(ORDER, PAYMENT, &PaymentMethod::Card, 0).unwrap();
    assert_eq!(s.gateway, "Cashfree");
    let all_down = SmartRouter::new(vec![
        MockGateway { gateway_name: "Razorpay", should_fail: true },
        MockGateway { gateway_name: "Cashfree", should_fail: true },
    ]);
    assert_eq!(all_down.pick_checkout(ORDER, PAYMENT, &PaymentMethod::Card, 0).unwrap_err(), "Cashfree failed: Cashfree unavailable");
    let none: SmartRouter<MockGateway> = SmartRouter::new(vec![]);
    assert_eq!(none.pick_checkout(ORDER, PAYMENT, &PaymentMethod::Card, 0).unwrap_err(), "no gateway configured");
}

#[test]
fn worker_and_table_vocabulary() {
    assert_eq!(PaymentMethod::Upi.db_label(), "UPI");
    assert_eq!(PaymentMethod::Card.db_label(), "CARD");
    assert_eq!(PaymentStatus::Pending.db_label(), "PENDING");
    assert_eq!(PaymentStatus::Success.db_label(), "SUCCESS");
    assert_eq!(PaymentStatus::Failed.db_label(), "FAILED");
    assert_eq!(idempotency_key(&event("x")), "idemp:webhook:Razorpay:evt_1");
    assert!(confirms_payment(PaymentStatus::Success));
    assert!(!confirms_payment(PaymentStatus::Failed));
    assert!(!confirms_payment(PaymentStatus::Pending));
    assert_eq!(settlement_ref(PAYMENT), "settle-0000000a-000b-000c-000d-00000000000e");
    assert_eq!(webhook_stream(), "stream:webhooks");
    assert_eq!(payments_confirmed_channel(), "payments.confirmed");
    assert_eq!(new_order_status(), "PENDING");
}

#[test]
fn queue_reads_and_cursor() {
    let entries = vec![
        ("1-0".to_string(), vec![("payload".to_string(), "a".to_string())]),
        ("2-0".to_string(), vec![("other".to_string(), "x".to_string())]),
        ("3-0".to_string(), vec![("k".to_string(), "v".to_string()), ("payload".to_string(), "c".to_string())]),
    ];
    let out = stream_payloads(&entries);
    assert_eq!(out, vec![("1-0".to_string(), "a".to_string()), ("3-0".to_string(), "c".to_string())]);
    assert_eq!(next_cursor("0-0".to_string(), &out), "3-0");
    assert_eq!(next_cursor("0-0".to_string(), &vec![]), "0-0");
}

#[test]
fn api_errors() {
    let e = ApiError::internal();
    assert_eq!((e.code, e.message.as_str()), (500, "internal server error"));
    let e = ApiError::not_found("order not found");
    assert_eq!((e.code, e.message.as_str()), (404, "order not found"));
}

fn event_from(gateway: &str, event_id: &str) -> GatewayWebhookEvent {
    let mut e = event("sig");
    e.gateway = gateway.to_string();
    e.event_id = event_id.to_string();
    e
}

#[test]
fn idempotency_keys_identify_webhooks() {
    let first = idempotency_key(&event_from("Razorpay", "evt_1"));
    assert_eq!(first, idempotency_key(&event_from("Razorpay", "evt_1")));
    assert_ne!(first, idempotency_key(&event_from("Razorpay", "evt_2")));
    assert_ne!(first, idempotency_key(&event_from("Cashfree", "evt_1")));
    // a gateway name with `:` can collide with another webhook's key
    assert_eq!(idempotency_key(&event_from("a:b", "c")), idempotency_key(&event_from("a", "b:c")));
}

#[test]
fn webhooks_are_applied_once_and_only_successes_confirm() {
    let mut e = event("sig");
    assert_eq!(webhook_action(&e, true), WebhookAction::RecordAndConfirm);
    assert_eq!(webhook_action(&e, false), WebhookAction::SkipDuplicate);
    e.status = PaymentStatus::Failed;
    assert_eq!(webhook_action(&e, true), WebhookAction::Record);
    e.status = PaymentStatus::Pending;
    assert_eq!(webhook_action(&e, true), WebhookAction::Record);
    assert_eq!(webhook_action(&e, false), WebhookAction::SkipDuplicate);
}
