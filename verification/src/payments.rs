use vstd::prelude::*;
use vstd::string::*;

use crate::text::assoc_find;

verus! {

/// How a customer pays.
#[derive(Debug, Clone, Copy, PartialEq, Eq, Structural)]
pub enum PaymentMethod {
    Upi,
    Card,
}

/// Where a payment stands.
#[derive(Debug, Clone, Copy, PartialEq, Eq, Structural)]
pub enum PaymentStatus {
    Pending,
    Success,
    Failed,
}

/// A payment gateway's notice about a payment. Ids are the UUIDs' 128-bit values.
#[derive(Debug)]
pub struct GatewayWebhookEvent {
    pub event_id: String,
    pub gateway: String,
    pub gateway_txn_id: String,
    pub payment_id: u128,
    pub order_id: u128,
    pub status: PaymentStatus,
    pub signature: String,
}

/// A checkout a gateway opened: the gateway's name, where to send the
/// customer, and when it expires (nanoseconds since the epoch).
#[derive(Debug)]
pub struct CheckoutSession {
    pub gateway: String,
    pub checkout_url: String,
    pub expires_at_ns: i128,
}

pub open spec fn session_view(r: Result<CheckoutSession, String>) -> Result<(Seq<char>, Seq<char>, i128), Seq<char>> {
    match r {
        Ok(s) => Ok((s.gateway@, s.checkout_url@, s.expires_at_ns)),
        Err(e) => Err(e@),
    }
}

/// How long a checkout stays open: fifteen minutes.
pub const CHECKOUT_TTL_NS: i128 = 900_000_000_000;

/// The lower-case hex digit of a nibble.
pub open spec fn hex_lower(n: int) -> char {
    if n < 10 {
        ((('0' as u32) as int) + n) as char
    } else {
        ((('a' as u32) as int) + n - 10) as char
    }
}

/// The 32 lower-case hex digits of a UUID, most significant first.
pub open spec fn uuid_simple(id: u128) -> Seq<char> {
    Seq::new(32, |i: int| hex_lower(((id >> (((31 - i) * 4) as u128)) & 0xfu128) as int))
}

/// The hyphenated text of a UUID: its hex digits in groups of 8-4-4-4-12.
pub open spec fn uuid_text(id: u128) -> Seq<char> {
    let s = uuid_simple(id);
    s.subrange(0, 8) + seq!['-'] + s.subrange(8, 12) + seq!['-'] + s.subrange(12, 16) + seq!['-']
        + s.subrange(16, 20) + seq!['-'] + s.subrange(20, 32)
}

/// What `str::to_lowercase` gives for a text (Unicode lower-casing).
pub uninterp spec fn unicode_lowercase(s: Seq<char>) -> Seq<char>;

/// Trusted: `uuid::Uuid::from_u128` followed by its `Display`. Claims the
/// text is the hyphenated lower-case form, as uuid's `fmt.rs` writes it.
#[verifier::external_body]
fn uuid_string(id: u128) -> (s: String)
    ensures
        s@ == uuid_text(id),
{
    uuid::Uuid::from_u128(id).to_string()
}

/// Trusted: `str::to_lowercase`. Claims only that the result is the Unicode
/// lower-casing of `s` (named, not stated).
#[verifier::external_body]
fn lowercase(s: &str) -> (r: String)
    ensures
        r@ == unicode_lowercase(s@),
{
    s.to_lowercase()
}

/// A payment gateway that can open checkouts and check its webhooks.
pub trait PaymentGateway {
    spec fn label(&self) -> Seq<char>;

    /// What opening a checkout comes to at `now_ns`.
    spec fn checkout_outcome(&self, order_id: u128, payment_id: u128, method: PaymentMethod, now_ns: i128) -> Result<(Seq<char>, Seq<char>, i128), Seq<char>>;

    /// Whether a webhook's signature is genuine under `secret`.
    spec fn signature_genuine(&self, event: GatewayWebhookEvent, secret: Seq<char>) -> bool;

    fn name(&self) -> (n: &'static str)
        ensures
            n@ == self.label(),
    ;

    fn create_checkout(&self, order_id: u128, payment_id: u128, method: &PaymentMethod, now_ns: i128) -> (r: Result<CheckoutSession, String>)
        requires
            now_ns <= i128::MAX - CHECKOUT_TTL_NS,
        ensures
            session_view(r) == self.checkout_outcome(order_id, payment_id, *method, now_ns),
    ;

    fn verify_webhook_signature(&self, event: &GatewayWebhookEvent, secret: &str) -> (b: bool)
        ensures
            b == self.signature_genuine(*event, secret@),
    ;

    fn fetch_payment_status(&self, payment_id: u128) -> (r: Result<PaymentStatus, String>);
}

/// A stand-in gateway: it opens checkouts unless told to fail, and accepts
/// webhooks signed `name:secret`.
#[derive(Debug, Clone, Copy)]
pub struct MockGateway {
    pub gateway_name: &'static str,
    pub should_fail: bool,
}

/// The URL of a mock checkout for an order and a payment.
pub open spec fn mock_checkout_url(name: Seq<char>, order_id: u128, payment_id: u128) -> Seq<char> {
    "https://mock-"@ + unicode_lowercase(name) + ".example/checkout?order_id="@ + uuid_text(order_id)
        + "&payment_id="@ + uuid_text(payment_id)
}

impl PaymentGateway for MockGateway {
    open spec fn label(&self) -> Seq<char> {
        self.gateway_name@
    }

    open spec fn checkout_outcome(&self, order_id: u128, payment_id: u128, method: PaymentMethod, now_ns: i128) -> Result<(Seq<char>, Seq<char>, i128), Seq<char>> {
        if self.should_fail {
            Err(self.gateway_name@ + " unavailable"@)
        } else {
            Ok((self.gateway_name@, mock_checkout_url(self.gateway_name@, order_id, payment_id), (now_ns + CHECKOUT_TTL_NS) as i128))
        }
    }

    open spec fn signature_genuine(&self, event: GatewayWebhookEvent, secret: Seq<char>) -> bool {
        event.signature@ == self.gateway_name@ + ":"@ + secret
    }

    fn name(&self) -> (n: &'static str) {
        self.gateway_name
    }

    fn create_checkout(&self, order_id: u128, payment_id: u128, method: &PaymentMethod, now_ns: i128) -> (r: Result<CheckoutSession, String>) {
        if self.should_fail {
            let mut msg = String::from_str(self.gateway_name);
            msg.append(" unavailable");
            return Err(msg);
        }
        let mut url = String::from_str("https://mock-");
        url.append(lowercase(self.gateway_name).as_str());
        url.append(".example/checkout?order_id=");
        url.append(uuid_string(order_id).as_str());
        url.append("&payment_id=");
        url.append(uuid_string(payment_id).as_str());
        Ok(CheckoutSession {
            gateway: String::from_str(self.gateway_name),
            checkout_url: url,
            expires_at_ns: now_ns + CHECKOUT_TTL_NS,
        })
    }

    fn verify_webhook_signature(&self, event: &GatewayWebhookEvent, secret: &str) -> (b: bool) {
        let mut expected = String::from_str(self.gateway_name);
        expected.append(":");
        expected.append(secret);
        event.signature == expected
    }

    fn fetch_payment_status(&self, _payment_id: u128) -> (r: Result<PaymentStatus, String>)
        ensures
            r == Ok::<PaymentStatus, String>(PaymentStatus::Success),
    {
        Ok(PaymentStatus::Success)
    }
}

/// Opens each checkout with the first gateway, in order, that succeeds.
pub struct SmartRouter<G: PaymentGateway> {
    gateways: Vec<G>,
}

/// What routing a checkout through `gws[i..]` comes to, `last` being the
/// failure of the gateway tried before.
pub open spec fn route_from<G: PaymentGateway>(
    gws: Seq<G>,
    i: int,
    order_id: u128,
    payment_id: u128,
    method: PaymentMethod,
    now_ns: i128,
    last: Option<Seq<char>>,
) -> Result<(Seq<char>, Seq<char>, i128), Seq<char>>
    decreases gws.len() - i,
{
    if i < 0 || i >= gws.len() {
        Err(match last {
            Some(m) => m,
            None => "no gateway configured"@,
        })
    } else {
        match gws[i].checkout_outcome(order_id, payment_id, method, now_ns) {
            Ok(s) => Ok(s),
            Err(e) => route_from(gws, i + 1, order_id, payment_id, method, now_ns, Some(gws[i].label() + " failed: "@ + e)),
        }
    }
}

impl<G: PaymentGateway> SmartRouter<G> {
    pub closed spec fn routes(self) -> Seq<G> {
        self.gateways@
    }

    pub fn new(gateways: Vec<G>) -> (r: Self)
        ensures
            r.routes() == gateways@,
    {
        Self { gateways }
    }

    /// The checkout of the first gateway that opens one; otherwise the last
    /// gateway's failure, or that none is configured.
    pub fn pick_checkout(&self, order_id: u128, payment_id: u128, method: &PaymentMethod, now_ns: i128) -> (r: Result<CheckoutSession, String>)
        requires
            now_ns <= i128::MAX - CHECKOUT_TTL_NS,
        ensures
            session_view(r) == route_from(self.routes(), 0, order_id, payment_id, *method, now_ns, None),
    {
        let mut last_error: Option<String> = None;
        let mut i: usize = 0;
        while i < self.gateways.len()
            invariant
                i <= self.gateways@.len(),
                now_ns <= i128::MAX - CHECKOUT_TTL_NS,
                route_from(self.routes(), 0, order_id, payment_id, *method, now_ns, None) == route_from(
                    self.routes(),
                    i as int,
                    order_id,
                    payment_id,
                    *method,
                    now_ns,
                    match last_error {
                        Some(m) => Some(m@),
                        None => None,
                    },
                ),
                self.routes() == self.gateways@,
            decreases self.gateways@.len() - i,
        {
            let gateway = &self.gateways[i];
            match gateway.create_checkout(order_id, payment_id, method, now_ns) {
                Ok(session) => return Ok(session),
                Err(err) => {
                    let mut msg = String::from_str(gateway.name());
                    msg.append(" failed: ");
                    msg.append(err.as_str());
                    last_error = Some(msg);
                },
            }
            i += 1;
        }
        match last_error {
            Some(m) => Err(m),
            None => Err(String::from_str("no gateway configured")),
        }
    }
}

impl PaymentMethod {
    /// How the payments table writes the method.
    pub fn db_label(&self) -> (s: &'static str)
        ensures
            s@ == match *self {
                PaymentMethod::Upi => "UPI"@,
                PaymentMethod::Card => "CARD"@,
            },
    {
        match self {
            PaymentMethod::Upi => "UPI",
            PaymentMethod::Card => "CARD",
        }
    }
}

impl PaymentStatus {
    /// How the transactions table writes the status.
    pub fn db_label(&self) -> (s: &'static str)
        ensures
            s@ == match *self {
                PaymentStatus::Pending => "PENDING"@,
                PaymentStatus::Success => "SUCCESS"@,
                PaymentStatus::Failed => "FAILED"@,
            },
    {
        match self {
            PaymentStatus::Pending => "PENDING",
            PaymentStatus::Success => "SUCCESS",
            PaymentStatus::Failed => "FAILED",
        }
    }
}

/// How long a processed webhook is remembered: an hour.
pub const WEBHOOK_IDEMPOTENCY_TTL_SECS: u64 = 3600;

/// The amount recorded for a settlement the reconciler matches.
pub const RECONCILED_SETTLEMENT_AMOUNT: i64 = 100;

/// The name of the stream webhooks are queued on.
pub fn webhook_stream() -> (s: String)
    ensures
        s@ == "stream:webhooks"@,
{
    String::from_str("stream:webhooks")
}

/// The channel payment confirmations are published on.
pub fn payments_confirmed_channel() -> (s: String)
    ensures
        s@ == "payments.confirmed"@,
{
    String::from_str("payments.confirmed")
}

/// The key that marks a webhook as processed: one per gateway and event id.
pub open spec fn idempotency_key_of(gateway: Seq<char>, event_id: Seq<char>) -> Seq<char> {
    "idemp:webhook:"@ + gateway + ":"@ + event_id
}

pub fn idempotency_key(event: &GatewayWebhookEvent) -> (k: String)
    ensures
        k@ == idempotency_key_of(event.gateway@, event.event_id@),
{
    let mut k = String::from_str("idemp:webhook:");
    k.append(event.gateway.as_str());
    k.append(":");
    k.append(event.event_id.as_str());
    k
}

/// Whether a webhook confirms its payment: only a success does.
pub fn confirms_payment(status: PaymentStatus) -> (b: bool)
    ensures
        b == (status == PaymentStatus::Success),
{
    match status {
        PaymentStatus::Success => true,
        _ => false,
    }
}

/// What the worker does with a queued webhook.
#[derive(Debug, Clone, Copy, PartialEq, Eq, Structural)]
pub enum WebhookAction {
    /// It was handled before: leave it.
    SkipDuplicate,
    /// Log the transaction.
    Record,
    /// Log the transaction, mark the payment and its order paid, and
    /// announce the confirmation.
    RecordAndConfirm,
}

/// How a webhook is handled, given whether its idempotency mark was newly
/// set (a mark already present means it was handled before): a duplicate is
/// skipped; otherwise it is logged, and a success also confirms the payment.
pub open spec fn webhook_action_of(status: PaymentStatus, newly_marked: bool) -> WebhookAction {
    if !newly_marked {
        WebhookAction::SkipDuplicate
    } else if status == PaymentStatus::Success {
        WebhookAction::RecordAndConfirm
    } else {
        WebhookAction::Record
    }
}

pub fn webhook_action(event: &GatewayWebhookEvent, newly_marked: bool) -> (a: WebhookAction)
    ensures
        a == webhook_action_of(event.status, newly_marked),
{
    if !newly_marked {
        WebhookAction::SkipDuplicate
    } else if confirms_payment(event.status) {
        WebhookAction::RecordAndConfirm
    } else {
        WebhookAction::Record
    }
}

/// The reference of the settlement recorded for a payment.
pub fn settlement_ref(payment_id: u128) -> (s: String)
    ensures
        s@ == "settle-"@ + uuid_text(payment_id),
{
    let mut s = String::from_str("settle-");
    s.append(uuid_string(payment_id).as_str());
    s
}

/// The queued webhooks of a stream read, in order: each entry's id with its
/// `payload` field; entries without one are skipped.
pub open spec fn payloads_of(entries: Seq<(String, Vec<(String, String)>)>) -> Seq<(Seq<char>, Seq<char>)>
    decreases entries.len(),
{
    if entries.len() == 0 {
        Seq::empty()
    } else {
        let rest = payloads_of(entries.drop_last());
        match crate::text::assoc_lookup(entries.last().1@, "payload"@, false) {
            Some(p) => rest.push((entries.last().0@, p@)),
            None => rest,
        }
    }
}

pub open spec fn pairs_view(v: Seq<(String, String)>) -> Seq<(Seq<char>, Seq<char>)> {
    v.map_values(|e: (String, String)| (e.0@, e.1@))
}

pub fn stream_payloads(entries: &Vec<(String, Vec<(String, String)>)>) -> (out: Vec<(String, String)>)
    ensures
        pairs_view(out@) == payloads_of(entries@),
{
    let mut out: Vec<(String, String)> = Vec::new();
    let mut i: usize = 0;
    while i < entries.len()
        invariant
            i <= entries@.len(),
            pairs_view(out@) == payloads_of(entries@.subrange(0, i as int)),
        decreases entries@.len() - i,
    {
        assert(entries@.subrange(0, i + 1).drop_last() =~= entries@.subrange(0, i as int));
        assert(entries@.subrange(0, i + 1).last() == entries@[i as int]);
        match assoc_find(&entries[i].1, "payload", false) {
            Some(p) => {
                let ghost before = out@;
                out.push((entries[i].0.clone(), p.clone()));
                assert(pairs_view(out@) =~= pairs_view(before).push((entries@[i as int].0@, p@)));
            },
            None => {},
        }
        i += 1;
    }
    assert(entries@.subrange(0, entries@.len() as int) =~= entries@);
    out
}

/// The stream position after a batch: the id of its last entry, or the
/// position before when the batch is empty.
pub fn next_cursor(last_id: String, batch: &Vec<(String, String)>) -> (c: String)
    ensures
        batch@.len() == 0 ==> c@ == last_id@,
        batch@.len() > 0 ==> c@ == batch@.last().0@,
{
    if batch.len() == 0 {
        last_id
    } else {
        batch[batch.len() - 1].0.clone()
    }
}

/// An error answer of the payment API: an HTTP status and a message.
#[derive(Debug)]
pub struct ApiError {
    pub code: u16,
    pub message: String,
}

impl ApiError {
    /// A failure of the service; the cause is not shown to the caller.
    pub fn internal() -> (e: ApiError)
        ensures
            e.code == 500,
            e.message@ == "internal server error"@,
    {
        ApiError { code: 500, message: String::from_str("internal server error") }
    }

    pub fn not_found(message: &str) -> (e: ApiError)
        ensures
            e.code == 404,
            e.message@ == message@,
    {
        ApiError { code: 404, message: String::from_str(message) }
    }
}

/// The status a new order starts in.
pub fn new_order_status() -> (s: &'static str)
    ensures
        s@ == "PENDING"@,
{
    "PENDING"
}

} // verus!
