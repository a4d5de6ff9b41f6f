use vstd::prelude::*;
use vstd::string::*;

use crate::auth::{client_channel, client_channel_name, device_channel, device_channel_name, has_text, topic_channel, topic_channel_name, Fault};
use crate::config::ClientConfig;
use crate::error::{ErrorKind, PropellerError};
use crate::headers::Headers;
use crate::metrics::{bumped, lowered, Counter, Metrics};
use crate::text::{assoc_find, assoc_lookup, lemma_assoc_lookup_none, lemma_assoc_lookup_push, same_name};

use std::collections::HashMap;

verus! {

/// A connected device of a client, with the attributes it announced.
#[derive(Debug, Clone)]
pub struct Device {
    pub id: String,
    pub attributes: Vec<(String, String)>,
}

/// An event as a subscriber receives it: the channel it came on and its bytes.
#[derive(Debug)]
pub struct TopicEvent {
    pub topic: String,
    pub event: Vec<u8>,
}

pub struct SendEventToClientRequest {
    pub tenant_id: String,
    pub client_id: String,
    pub event_name: String,
    pub event: Vec<u8>,
}

pub struct SendEventToClientDeviceRequest {
    pub tenant_id: String,
    pub client_id: String,
    pub device_id: String,
    pub event_name: String,
    pub event: Vec<u8>,
}

pub struct SendEventToTopicRequest {
    pub tenant_id: String,
    pub topic: String,
    pub event_name: String,
    pub event: Vec<u8>,
}

pub struct GetActiveDevicesRequest {
    pub tenant_id: String,
    pub client_id: String,
}

/// A hash entry of the device store: the hash key and the field in it.
#[derive(Debug)]
pub struct DeviceEntry {
    pub key: String,
    pub field: String,
}

/// What subscribing a client takes: the channels to listen on, and the
/// device entry to record (with the device's attributes as its value).
#[derive(Debug)]
pub struct SubscribePlan {
    pub channels: Vec<String>,
    pub device_entry: Option<DeviceEntry>,
    /// The value stored in the device entry: the device's attributes as a
    /// JSON object.
    pub device_value: Option<String>,
}

/// One message to publish: the channel and the event's bytes.
#[derive(Debug)]
pub struct Publish {
    pub channel: String,
    pub event: Vec<u8>,
}

/// What a batch of topic events comes to: the messages to publish, in
/// order, and the refusal that stopped the batch, if one did.
#[derive(Debug)]
pub struct TopicBatch {
    pub publishes: Vec<Publish>,
    pub stopped: Option<PropellerError>,
}

/// The key of the hash that holds a client's devices.
pub open spec fn device_store_key_of(tenant: Seq<char>, client: Seq<char>) -> Seq<char> {
    tenant + ":"@ + client
}

pub fn device_store_key(tenant_id: &str, client_id: &str) -> (k: String)
    ensures
        k@ == device_store_key_of(tenant_id@, client_id@),
{
    let mut k = String::from_str(tenant_id);
    k.append(":");
    k.append(client_id);
    k
}

pub open spec fn entry_view(e: DeviceEntry) -> (Seq<char>, Seq<char>) {
    (e.key@, e.field@)
}

pub open spec fn publish_view(p: Publish) -> (Seq<char>, Seq<u8>) {
    (p.channel@, p.event@)
}

/// `attrs` pairs each configured attribute header that the request carries
/// with its value, each once.
pub open spec fn attributes_from(attrs: Seq<(String, String)>, headers: Headers, keys: Seq<String>) -> bool {
    &&& forall|i: int, j: int| 0 <= i < j < attrs.len() ==> (#[trigger] attrs[i]).0@ != (#[trigger] attrs[j]).0@
    &&& forall|k: Seq<char>, v: Seq<char>|
        (exists|i: int| 0 <= i < attrs.len() && (#[trigger] attrs[i]).0@ == k && attrs[i].1@ == v)
        <==> (has_text(keys, k) && headers.lookup(k) == Some(v))
}

/// The device id a request announces, empty when it announces none.
pub open spec fn announced_device(cc: ClientConfig, headers: Headers) -> Seq<char> {
    match headers.lookup(cc.device_header@) {
        Some(v) => v,
        None => Seq::empty(),
    }
}

/// `r` is the device a request announces: none unless device support is on
/// and the device header is present and not empty; its attributes are the
/// configured attribute headers the request carries.
pub open spec fn device_announced(cc: ClientConfig, headers: Headers, r: Option<Device>) -> bool {
    match r {
        None => !cc.enable_device_support || announced_device(cc, headers).len() == 0,
        Some(d) => {
            &&& cc.enable_device_support
            &&& d.id@ == announced_device(cc, headers)
            &&& d.id@.len() > 0
            &&& attributes_from(d.attributes@, headers, cc.device_attribute_headers@)
        },
    }
}

/// The device a request announces.
pub fn device_from_headers(cc: &ClientConfig, headers: &Headers) -> (r: Option<Device>)
    ensures
        device_announced(*cc, *headers, r),
{
    if !cc.enable_device_support {
        return None;
    }
    let device_id = match headers.get(cc.device_header.as_str()) {
        Some(v) => v,
        None => String::new(),
    };
    if device_id.as_str().is_empty() {
        return None;
    }
    let keys = &cc.device_attribute_headers;
    let mut attrs: Vec<(String, String)> = Vec::new();
    let mut i: usize = 0;
    while i < keys.len()
        invariant
            i <= keys@.len(),
            forall|a: int, b: int| 0 <= a < b < attrs@.len() ==> (#[trigger] attrs@[a]).0@ != (#[trigger] attrs@[b]).0@,
            forall|k: Seq<char>, v: Seq<char>|
                (exists|a: int| 0 <= a < attrs@.len() && (#[trigger] attrs@[a]).0@ == k && attrs@[a].1@ == v)
                <==> (has_text(keys@.subrange(0, i as int), k) && headers.lookup(k) == Some(v)),
        decreases keys@.len() - i,
    {
        let key = &keys[i];
        let ghost prev = attrs@;
        let ghost sub0 = keys@.subrange(0, i as int);
        let ghost sub1 = keys@.subrange(0, i + 1);
        assert forall|k: Seq<char>| has_text(sub1, k) <==> (has_text(sub0, k) || k == key@) by {
            if has_text(sub1, k) {
                let m = choose|m: int| 0 <= m < sub1.len() && (#[trigger] sub1[m])@ == k;
                if m < i {
                    assert(sub0[m] == sub1[m]);
                }
            }
            if has_text(sub0, k) {
                let m = choose|m: int| 0 <= m < sub0.len() && (#[trigger] sub0[m])@ == k;
                assert(sub1[m] == sub0[m]);
            }
            if k == key@ {
                assert(sub1[i as int] == keys@[i as int]);
            }
        }
        // the key is recorded already where an earlier entry of the list names it
        let mut seen = false;
        let mut j: usize = 0;
        while j < attrs.len()
            invariant
                j <= attrs@.len(),
                attrs@ == prev,
                !seen ==> forall|a: int| 0 <= a < j ==> (#[trigger] attrs@[a]).0@ != key@,
                seen ==> exists|a: int| 0 <= a < attrs@.len() && (#[trigger] attrs@[a]).0@ == key@,
            decreases attrs@.len() - j,
        {
            if attrs[j].0 == *key {
                seen = true;
            }
            j += 1;
        }
        if !seen {
            match headers.get(key.as_str()) {
                Some(val) => {
                    let ghost v0 = val@;
                    attrs.push((key.clone(), val));
                    assert forall|a: int, b: int| 0 <= a < b < attrs@.len() implies (#[trigger] attrs@[a]).0@ != (#[trigger] attrs@[b]).0@ by {
                        if b == prev.len() {
                            assert(attrs@[a] == prev[a]);
                        } else {
                            assert(attrs@[a] == prev[a] && attrs@[b] == prev[b]);
                        }
                    }
                    assert forall|k: Seq<char>, v: Seq<char>|
                        (exists|a: int| 0 <= a < attrs@.len() && (#[trigger] attrs@[a]).0@ == k && attrs@[a].1@ == v)
                        <==> (has_text(sub1, k) && headers.lookup(k) == Some(v)) by {
                        if exists|a: int| 0 <= a < attrs@.len() && (#[trigger] attrs@[a]).0@ == k && attrs@[a].1@ == v {
                            let a = choose|a: int| 0 <= a < attrs@.len() && (#[trigger] attrs@[a]).0@ == k && attrs@[a].1@ == v;
                            if a < prev.len() {
                                assert(prev[a] == attrs@[a]);
                            }
                        }
                        if has_text(sub1, k) && headers.lookup(k) == Some(v) {
                            if has_text(sub0, k) {
                                let a = choose|a: int| 0 <= a < prev.len() && (#[trigger] prev[a]).0@ == k && prev[a].1@ == v;
                                assert(attrs@[a] == prev[a]);
                            } else {
                                assert(attrs@[prev.len() as int].0@ == k);
                            }
                        }
                    }
                },
                None => {
                    assert forall|k: Seq<char>, v: Seq<char>|
                        (exists|a: int| 0 <= a < attrs@.len() && (#[trigger] attrs@[a]).0@ == k && attrs@[a].1@ == v)
                        <==> (has_text(sub1, k) && headers.lookup(k) == Some(v)) by {
                        if k == key@ && has_text(sub1, k) && headers.lookup(k) == Some(v) {
                            assert(headers.lookup(key@) is None);
                        }
                    }
                },
            }
        } else {
            assert forall|k: Seq<char>, v: Seq<char>|
                (exists|a: int| 0 <= a < attrs@.len() && (#[trigger] attrs@[a]).0@ == k && attrs@[a].1@ == v)
                <==> (has_text(sub1, k) && headers.lookup(k) == Some(v)) by {
                if k == key@ && has_text(sub1, k) && headers.lookup(k) == Some(v) {
                    let a = choose|a: int| 0 <= a < attrs@.len() && (#[trigger] attrs@[a]).0@ == key@;
                    assert(has_text(sub0, k) && headers.lookup(k) == Some(attrs@[a].1@)) by {
                        assert(exists|b: int| 0 <= b < attrs@.len() && (#[trigger] attrs@[b]).0@ == key@ && attrs@[b].1@ == attrs@[a].1@);
                    }
                }
            }
        }
        i += 1;
    }
    assert(keys@.subrange(0, keys@.len() as int) =~= keys@);
    Some(Device { id: device_id, attributes: attrs })
}

// ---------------------------------------------------------------------------
// Device records: a device's attributes are stored as a JSON object of
// strings under the device's id.
// ---------------------------------------------------------------------------

/// What `serde_json` reads a text as, taken as a map from strings to
/// strings; `None` where the text is not such a JSON object.
pub uninterp spec fn json_string_map(text: Seq<char>) -> Option<Map<Seq<char>, Seq<char>>>;

/// No two pairs share a name.
pub open spec fn distinct_keys(v: Seq<(String, String)>) -> bool {
    forall|i: int, j: int| 0 <= i < j < v.len() ==> (#[trigger] v[i]).0@ != (#[trigger] v[j]).0@
}

/// Attribute pairs as a map: each name with the value of its first pair.
pub open spec fn attribute_map(v: Seq<(String, String)>) -> Map<Seq<char>, Seq<char>> {
    Map::new(|k: Seq<char>| assoc_lookup(v, k, false) is Some, |k: Seq<char>| assoc_lookup(v, k, false).unwrap()@)
}

/// The attributes a stored device value lists: the JSON object's members,
/// or none where the value is not such an object.
pub open spec fn listed_attributes(value: Seq<char>) -> Map<Seq<char>, Seq<char>> {
    match json_string_map(value) {
        Some(m) => m,
        None => Map::empty(),
    }
}

/// Trusted: `serde_json::from_str` into a `HashMap<String, String>`, its
/// entries handed out as pairs. Claims that the pairs have distinct names and
/// are the map `json_string_map` names (`None` exactly on a parse error).
#[verifier::external_body]
fn parse_string_map(text: &str) -> (r: Option<Vec<(String, String)>>)
    ensures
        match r {
            None => json_string_map(text@) is None,
            Some(v) => distinct_keys(v@) && json_string_map(text@) == Some(attribute_map(v@)),
        },
{
    serde_json::from_str::<HashMap<String, String>>(text).ok().map(|m| m.into_iter().collect())
}

/// Trusted: `serde_json::to_string` of the pairs collected into a
/// `HashMap<&str, &str>`. Claims that reading the text back as a string map
/// gives the pairs' map: serde_json writes each name and value as a JSON
/// string, and serialising a map with string keys does not fail.
#[verifier::external_body]
fn encode_string_map(pairs: &Vec<(String, String)>) -> (s: String)
    requires
        distinct_keys(pairs@),
    ensures
        json_string_map(s@) == Some(attribute_map(pairs@)),
{
    let map: HashMap<&str, &str> = pairs.iter().map(|(k, v)| (k.as_str(), v.as_str())).collect();
    serde_json::to_string(&map).unwrap_or_default()
}

proof fn lemma_attribute_map_push(s: Seq<(String, String)>, e: (String, String))
    ensures
        attribute_map(s.push(e)) == if attribute_map(s).dom().contains(e.0@) {
            attribute_map(s)
        } else {
            attribute_map(s).insert(e.0@, e.1@)
        },
{
    assert forall|k: Seq<char>| #[trigger] assoc_lookup(s.push(e), k, false) == match assoc_lookup(s, k, false) {
        Some(v) => Some(v),
        None => if same_name(e.0@, k, false) {
            Some(e.1)
        } else {
            None
        },
    } by {
        lemma_assoc_lookup_push(s, e, k, false);
    }
    if attribute_map(s).dom().contains(e.0@) {
        assert(attribute_map(s.push(e)) =~= attribute_map(s));
    } else {
        assert(attribute_map(s.push(e)) =~= attribute_map(s).insert(e.0@, e.1@));
    }
}

/// The attribute pairs with later repeats of a name left out.
pub fn distinct_attributes(v: &Vec<(String, String)>) -> (r: Vec<(String, String)>)
    ensures
        distinct_keys(r@),
        attribute_map(r@) == attribute_map(v@),
{
    let mut out: Vec<(String, String)> = Vec::new();
    let mut i: usize = 0;
    assert(attribute_map(out@) =~= attribute_map(v@.subrange(0, 0)));
    while i < v.len()
        invariant
            i <= v@.len(),
            distinct_keys(out@),
            attribute_map(out@) == attribute_map(v@.subrange(0, i as int)),
        decreases v@.len() - i,
    {
        let ghost before = out@;
        proof {
            assert(v@.subrange(0, i + 1) =~= v@.subrange(0, i as int).push(v@[i as int]));
            lemma_attribute_map_push(v@.subrange(0, i as int), v@[i as int]);
        }
        match assoc_find(&out, v[i].0.as_str(), false) {
            Some(_) => {
                assert(attribute_map(out@).dom().contains(v@[i as int].0@));
            },
            None => {
                proof {
                    lemma_assoc_lookup_none(out@, v@[i as int].0@, false);
                }
                out.push((v[i].0.clone(), v[i].1.clone()));
                proof {
                    assert(out@ =~= before.push(v@[i as int]));
                    lemma_attribute_map_push(before, v@[i as int]);
                    assert forall|a: int, b: int| 0 <= a < b < out@.len() implies (#[trigger] out@[a]).0@ != (#[trigger] out@[b]).0@ by {
                        if b == before.len() {
                            assert(!same_name(before[a].0@, v@[i as int].0@, false));
                        } else {
                            assert(out@[a] == before[a] && out@[b] == before[b]);
                        }
                    }
                }
            },
        }
        i += 1;
    }
    assert(v@.subrange(0, v@.len() as int) =~= v@);
    out
}

/// The value a device's entry stores: its attributes as a JSON object.
pub fn device_record_value(device: &Device) -> (s: String)
    ensures
        json_string_map(s@) == Some(attribute_map(device.attributes@)),
{
    let pairs = distinct_attributes(&device.attributes);
    encode_string_map(&pairs)
}

/// A device as its stored entry lists it: the field is its id, and the
/// attributes are read from the stored JSON (none where it cannot be read).
pub fn device_from_entry(id: String, value: &str) -> (d: Device)
    ensures
        d.id@ == id@,
        distinct_keys(d.attributes@),
        attribute_map(d.attributes@) == listed_attributes(value@),
{
    match parse_string_map(value) {
        Some(attributes) => Device { id, attributes },
        None => {
            let attributes: Vec<(String, String)> = Vec::new();
            assert(attribute_map(attributes@) =~= Map::<Seq<char>, Seq<char>>::empty());
            Device { id, attributes }
        },
    }
}

/// The devices of a loaded device hash, one per (field, value) entry, in order.
pub fn devices_from_entries(entries: Vec<(String, String)>) -> (r: Vec<Device>)
    ensures
        r@.len() == entries@.len(),
        forall|k: int| 0 <= k < r@.len() ==> {
            &&& (#[trigger] r@[k]).id@ == entries@[k].0@
            &&& distinct_keys(r@[k].attributes@)
            &&& attribute_map(r@[k].attributes@) == listed_attributes(entries@[k].1@)
        },
{
    let mut out: Vec<Device> = Vec::new();
    let mut i: usize = 0;
    while i < entries.len()
        invariant
            i <= entries@.len(),
            out@.len() == i,
            forall|k: int| 0 <= k < i ==> {
                &&& (#[trigger] out@[k]).id@ == entries@[k].0@
                &&& distinct_keys(out@[k].attributes@)
                &&& attribute_map(out@[k].attributes@) == listed_attributes(entries@[k].1@)
            },
        decreases entries@.len() - i,
    {
        let d = device_from_entry(entries[i].0.clone(), entries[i].1.as_str());
        out.push(d);
        i += 1;
    }
    out
}

// ---------------------------------------------------------------------------
// Outcomes of the broker and the device store
// ---------------------------------------------------------------------------

/// A client's broker subscription came back: on success the connection is
/// counted; a broker failure is an internal error with its message.
pub fn subscribed<T>(outcome: Result<T, String>, metrics: &mut Metrics) -> (r: Result<T, PropellerError>)
    ensures
        match outcome {
            Ok(s) => r == Ok::<T, PropellerError>(s)
                && final(metrics).count(Counter::Connections) == bumped(old(metrics).count(Counter::Connections))
                && forall|c: Counter| c != Counter::Connections ==> final(metrics).count(c) == old(metrics).count(c),
            Err(m) => r matches Err(e) && e@ == (ErrorKind::Internal, m@) && *final(metrics) == *old(metrics),
        },
{
    match outcome {
        Ok(s) => {
            metrics.increment(Counter::Connections);
            Ok(s)
        },
        Err(m) => Err(PropellerError::Internal(m)),
    }
}

/// A client has gone: its connection is no longer counted.
pub fn disconnected(metrics: &mut Metrics)
    ensures
        final(metrics).count(Counter::Connections) == lowered(old(metrics).count(Counter::Connections)),
        forall|c: Counter| c != Counter::Connections ==> final(metrics).count(c) == old(metrics).count(c),
{
    metrics.decrement(Counter::Connections);
}

/// The broker answered a publish: on success the message is counted; a
/// failure is a broker error with its message.
pub fn published(outcome: Result<(), String>, metrics: &mut Metrics) -> (r: Result<(), PropellerError>)
    ensures
        match outcome {
            Ok(()) => r is Ok
                && final(metrics).count(Counter::MessagesPublished) == bumped(old(metrics).count(Counter::MessagesPublished))
                && forall|c: Counter| c != Counter::MessagesPublished ==> final(metrics).count(c) == old(metrics).count(c),
            Err(m) => r matches Err(e) && e@ == (ErrorKind::Broker, m@) && *final(metrics) == *old(metrics),
        },
{
    match outcome {
        Ok(()) => {
            metrics.increment(Counter::MessagesPublished);
            Ok(())
        },
        Err(m) => Err(PropellerError::Broker(m)),
    }
}

/// The broker answered a topic subscription change: a failure is an
/// internal error with its message.
pub fn topic_changed(outcome: Result<(), String>) -> (r: Result<(), PropellerError>)
    ensures
        match outcome {
            Ok(()) => r is Ok,
            Err(m) => r matches Err(e) && e@ == (ErrorKind::Internal, m@),
        },
{
    match outcome {
        Ok(()) => Ok(()),
        Err(m) => Err(PropellerError::Internal(m)),
    }
}

/// Where a topic batch stands: publish its next message, or finished.
#[derive(Debug)]
pub enum BatchStep {
    Continue,
    Finished(Result<(), PropellerError>),
}

pub open spec fn unit_outcome(r: Result<(), PropellerError>) -> Result<(), Fault> {
    match r {
        Ok(()) => Ok(()),
        Err(e) => Err(e@),
    }
}

/// How a batch ends once all its messages are published: with its refusal,
/// if one stopped it.
pub open spec fn batch_end(stopped: Option<PropellerError>) -> Result<(), Fault> {
    match stopped {
        Some(e) => Err(e@),
        None => Ok(()),
    }
}

impl TopicBatch {
    /// How a batch starts: with its first message, or, with none to publish,
    /// it ends at once.
    pub fn begin(&mut self) -> (step: BatchStep)
        ensures
            final(self).publishes@ == old(self).publishes@,
            old(self).publishes@.len() > 0 ==> (step is Continue && *final(self) == *old(self)),
            old(self).publishes@.len() == 0 ==> (step matches BatchStep::Finished(r) && unit_outcome(r) == batch_end(old(self).stopped)),
    {
        if self.publishes.len() > 0 {
            BatchStep::Continue
        } else {
            match self.stopped.take() {
                Some(e) => BatchStep::Finished(Err(e)),
                None => BatchStep::Finished(Ok(())),
            }
        }
    }

    /// The broker answered message `index`: a success is counted and the
    /// batch goes on (or, after its last message, ends as `batch_end`); a
    /// failure ends the batch with that broker error, later messages unsent.
    pub fn answered(&mut self, index: usize, outcome: Result<(), String>, metrics: &mut Metrics) -> (step: BatchStep)
        requires
            index < old(self).publishes@.len(),
        ensures
            final(self).publishes@ == old(self).publishes@,
            match outcome {
                Ok(()) => {
                    &&& final(metrics).count(Counter::MessagesPublished) == bumped(old(metrics).count(Counter::MessagesPublished))
                    &&& forall|c: Counter| c != Counter::MessagesPublished ==> final(metrics).count(c) == old(metrics).count(c)
                    &&& if index + 1 < old(self).publishes@.len() {
                        step is Continue && *final(self) == *old(self)
                    } else {
                        step matches BatchStep::Finished(r) && unit_outcome(r) == batch_end(old(self).stopped)
                    }
                },
                Err(m) => {
                    &&& step matches BatchStep::Finished(r) && unit_outcome(r) == Err::<(), Fault>((ErrorKind::Broker, m@))
                    &&& *final(metrics) == *old(metrics)
                    &&& *final(self) == *old(self)
                },
            },
    {
        match published(outcome, metrics) {
            Err(e) => BatchStep::Finished(Err(e)),
            Ok(()) => {
                if index < self.publishes.len() - 1 {
                    BatchStep::Continue
                } else {
                    match self.stopped.take() {
                        Some(e) => BatchStep::Finished(Err(e)),
                        None => BatchStep::Finished(Ok(())),
                    }
                }
            },
        }
    }
}

/// The device store answered a listing: its entries become the client's
/// devices; a failure is an internal error with its message.
pub fn devices_loaded(outcome: Result<Vec<(String, String)>, String>) -> (r: Result<Vec<Device>, PropellerError>)
    ensures
        match outcome {
            Ok(entries) => r matches Ok(ds) && ds@.len() == entries@.len() && forall|k: int| 0 <= k < ds@.len() ==> {
                &&& (#[trigger] ds@[k]).id@ == entries@[k].0@
                &&& distinct_keys(ds@[k].attributes@)
                &&& attribute_map(ds@[k].attributes@) == listed_attributes(entries@[k].1@)
            },
            Err(m) => r matches Err(e) && e@ == (ErrorKind::Internal, m@),
        },
{
    match outcome {
        Ok(entries) => Ok(devices_from_entries(entries)),
        Err(m) => Err(PropellerError::Internal(m)),
    }
}

/// Plans and checks the delivery work of the service: which channels a
/// client listens on, where an event is published, which device entries
/// are kept. The broker and the device store carry the plans out.
pub struct PushService {
    config: ClientConfig,
}

/// Why subscribing a client is refused, if it is.
pub open spec fn subscribe_problem(cc: ClientConfig, tenant: Seq<char>, client: Seq<char>, device: Option<Device>) -> Option<Fault> {
    if tenant.len() == 0 {
        Some((ErrorKind::InvalidArgument, "tenant id is required"@))
    } else if client.len() == 0 {
        Some((ErrorKind::InvalidArgument, "client id is required"@))
    } else if cc.enable_device_support && (device matches Some(d) && d.id@.len() == 0) {
        Some((ErrorKind::InvalidArgument, "device id is required when device support is enabled"@))
    } else {
        None
    }
}

/// The device a subscription records: only with device support on.
pub open spec fn tracked_device(cc: ClientConfig, device: Option<Device>) -> Option<Device> {
    if cc.enable_device_support { device } else { None }
}

pub open spec fn opt_device(device: Option<&Device>) -> Option<Device> {
    match device {
        Some(d) => Some(*d),
        None => None,
    }
}

pub open spec fn opt_entry_view(e: Option<DeviceEntry>) -> Option<(Seq<char>, Seq<char>)> {
    match e {
        Some(e) => Some(entry_view(e)),
        None => None,
    }
}

/// A subscription plan as text: its channels, and the device entry it records.
pub open spec fn plan_view(p: SubscribePlan) -> (Seq<Seq<char>>, Option<(Seq<char>, Seq<char>)>) {
    (p.channels@.map_values(|c: String| c@), opt_entry_view(p.device_entry))
}

/// What an accepted subscription comes to: the client's channel, then the
/// device's channel where a device is tracked; and the device's entry under
/// the client's device-store key.
pub open spec fn subscription_of(cc: ClientConfig, tenant: Seq<char>, client: Seq<char>, device: Option<Device>) -> (
    Seq<Seq<char>>,
    Option<(Seq<char>, Seq<char>)>,
) {
    match tracked_device(cc, device) {
        None => (seq![client_channel_name(tenant, client)], None),
        Some(d) => (
            seq![client_channel_name(tenant, client), device_channel_name(tenant, client, d.id@)],
            Some((device_store_key_of(tenant, client), d.id@)),
        ),
    }
}

/// Why publishing to a client is refused, if it is.
pub open spec fn client_publish_problem(req: SendEventToClientRequest) -> Option<Fault> {
    if req.tenant_id@.len() == 0 {
        Some((ErrorKind::InvalidArgument, "tenant id is empty"@))
    } else if req.client_id@.len() == 0 {
        Some((ErrorKind::InvalidArgument, "client id is empty"@))
    } else if req.event@.len() == 0 {
        Some((ErrorKind::InvalidArgument, "event is empty"@))
    } else {
        None
    }
}

/// Why publishing to a device is refused, if it is.
pub open spec fn device_publish_problem(cc: ClientConfig, req: SendEventToClientDeviceRequest) -> Option<Fault> {
    if !cc.enable_device_support {
        Some((ErrorKind::FailedPrecondition, "device support is disabled"@))
    } else if req.client_id@.len() == 0 {
        Some((ErrorKind::InvalidArgument, "client id is empty"@))
    } else if req.device_id@.len() == 0 {
        Some((ErrorKind::InvalidArgument, "device id is empty"@))
    } else if req.event@.len() == 0 {
        Some((ErrorKind::InvalidArgument, "event is empty"@))
    } else {
        None
    }
}

/// Why publishing to a topic is refused, if it is.
pub open spec fn topic_publish_problem(req: SendEventToTopicRequest) -> Option<Fault> {
    if req.tenant_id@.len() == 0 {
        Some((ErrorKind::InvalidArgument, "tenant id is empty"@))
    } else if req.topic@.len() == 0 {
        Some((ErrorKind::InvalidArgument, "topic is empty"@))
    } else if req.event@.len() == 0 {
        Some((ErrorKind::InvalidArgument, "event is empty"@))
    } else {
        None
    }
}

/// Why a topic subscription change is refused, if it is.
pub open spec fn topic_change_problem(tenant: Seq<char>, topic: Seq<char>) -> Option<Fault> {
    if topic.len() == 0 {
        Some((ErrorKind::InvalidArgument, "topic is empty"@))
    } else if tenant.len() == 0 {
        Some((ErrorKind::InvalidArgument, "tenant id is empty"@))
    } else {
        None
    }
}

/// Why listing a client's devices is refused, if it is.
pub open spec fn devices_problem(cc: ClientConfig, req: GetActiveDevicesRequest) -> Option<Fault> {
    if !cc.enable_device_support {
        Some((ErrorKind::FailedPrecondition, "device support is disabled"@))
    } else if req.client_id@.len() == 0 {
        Some((ErrorKind::InvalidArgument, "client id is empty"@))
    } else if req.tenant_id@.len() == 0 {
        Some((ErrorKind::InvalidArgument, "tenant id is empty"@))
    } else {
        None
    }
}

/// The index of the first topic request of a batch that is refused, or its length.
pub open spec fn first_refused(reqs: Seq<SendEventToTopicRequest>, from: int) -> int
    decreases reqs.len() - from,
{
    if from >= reqs.len() || from < 0 {
        reqs.len() as int
    } else if topic_publish_problem(reqs[from]) is Some {
        from
    } else {
        first_refused(reqs, from + 1)
    }
}

proof fn lemma_first_refused_bounds(reqs: Seq<SendEventToTopicRequest>, from: int)
    requires
        0 <= from <= reqs.len(),
    ensures
        from <= first_refused(reqs, from) <= reqs.len(),
        forall|k: int| from <= k < first_refused(reqs, from) ==> topic_publish_problem(#[trigger] reqs[k]) is None,
        first_refused(reqs, from) < reqs.len() ==> topic_publish_problem(reqs[first_refused(reqs, from)]) is Some,
    decreases reqs.len() - from,
{
    if from < reqs.len() && topic_publish_problem(reqs[from]) is None {
        lemma_first_refused_bounds(reqs, from + 1);
    }
}

fn clone_bytes(v: &Vec<u8>) -> (r: Vec<u8>)
    ensures
        r@ == v@,
{
    let mut r: Vec<u8> = Vec::new();
    let mut i: usize = 0;
    while i < v.len()
        invariant
            i <= v@.len(),
            r@ == v@.subrange(0, i as int),
        decreases v@.len() - i,
    {
        r.push(v[i]);
        i += 1;
        assert(r@ =~= v@.subrange(0, i as int));
    }
    assert(r@ =~= v@);
    r
}

impl PushService {
    pub closed spec fn settings(self) -> ClientConfig {
        self.config
    }

    pub fn new(config: ClientConfig) -> (s: Self)
        ensures
            s.settings() == config,
    {
        Self { config }
    }

    /// Plans a client's subscription: its client channel, its device channel
    /// when device support is on and a device is given, and the device entry
    /// to record under `tenant:client`.
    pub fn subscribe_client(&self, tenant_id: &str, client_id: &str, device: Option<&Device>) -> (r: Result<SubscribePlan, PropellerError>)
        ensures
            match subscribe_problem(self.settings(), tenant_id@, client_id@, opt_device(device)) {
                Some(f) => r matches Err(e) && e@ == f,
                None => r matches Ok(plan) && plan_view(plan) == subscription_of(self.settings(), tenant_id@, client_id@, opt_device(device))
                    && match tracked_device(self.settings(), opt_device(device)) {
                    Some(d) => plan.device_value matches Some(v) && json_string_map(v@) == Some(attribute_map(d.attributes@)),
                    None => plan.device_value is None,
                },
            },
    {
        if tenant_id.is_empty() {
            return Err(PropellerError::invalid_argument("tenant id is required"));
        }
        if client_id.is_empty() {
            return Err(PropellerError::invalid_argument("client id is required"));
        }
        let mut channels: Vec<String> = Vec::new();
        channels.push(client_channel(tenant_id, client_id));
        let mut device_entry: Option<DeviceEntry> = None;
        let mut device_value: Option<String> = None;
        if self.config.enable_device_support {
            if let Some(dev) = device {
                if dev.id.as_str().is_empty() {
                    return Err(PropellerError::invalid_argument("device id is required when device support is enabled"));
                }
                channels.push(device_channel(tenant_id, client_id, dev.id.as_str()));
                device_entry = Some(DeviceEntry { key: device_store_key(tenant_id, client_id), field: dev.id.clone() });
                device_value = Some(device_record_value(dev));
            }
        }
        let plan = SubscribePlan { channels, device_entry, device_value };
        assert(plan.channels@.map_values(|c: String| c@) =~= subscription_of(
            self.settings(),
            tenant_id@,
            client_id@,
            opt_device(device),
        ).0);
        Ok(plan)
    }

    /// The device entry to remove when a client disconnects: the one its
    /// subscription recorded, if any.
    pub fn unsubscribe_client(&self, tenant_id: &str, client_id: &str, device: Option<&Device>) -> (r: Option<DeviceEntry>)
        ensures
            opt_entry_view(r) == subscription_of(self.settings(), tenant_id@, client_id@, opt_device(device)).1,
    {
        if self.config.enable_device_support {
            if let Some(dev) = device {
                return Some(DeviceEntry { key: device_store_key(tenant_id, client_id), field: dev.id.clone() });
            }
        }
        None
    }

    /// Where an event for a client is published: its client channel.
    pub fn publish_to_client(&self, req: &SendEventToClientRequest) -> (r: Result<Publish, PropellerError>)
        ensures
            match client_publish_problem(*req) {
                Some(f) => r matches Err(e) && e@ == f,
                None => r matches Ok(p) && publish_view(p) == (client_channel_name(req.tenant_id@, req.client_id@), req.event@),
            },
    {
        if req.tenant_id.as_str().is_empty() {
            return Err(PropellerError::invalid_argument("tenant id is empty"));
        }
        if req.client_id.as_str().is_empty() {
            return Err(PropellerError::invalid_argument("client id is empty"));
        }
        if req.event.len() == 0 {
            return Err(PropellerError::invalid_argument("event is empty"));
        }
        Ok(Publish {
            channel: client_channel(req.tenant_id.as_str(), req.client_id.as_str()),
            event: clone_bytes(&req.event),
        })
    }

    /// Where an event for one device of a client is published: its device channel.
    pub fn publish_to_client_device(&self, req: &SendEventToClientDeviceRequest) -> (r: Result<Publish, PropellerError>)
        ensures
            match device_publish_problem(self.settings(), *req) {
                Some(f) => r matches Err(e) && e@ == f,
                None => r matches Ok(p) && publish_view(p) == (device_channel_name(req.tenant_id@, req.client_id@, req.device_id@), req.event@),
            },
    {
        if !self.config.enable_device_support {
            return Err(PropellerError::failed_precondition("device support is disabled"));
        }
        if req.client_id.as_str().is_empty() {
            return Err(PropellerError::invalid_argument("client id is empty"));
        }
        if req.device_id.as_str().is_empty() {
            return Err(PropellerError::invalid_argument("device id is empty"));
        }
        if req.event.len() == 0 {
            return Err(PropellerError::invalid_argument("event is empty"));
        }
        Ok(Publish {
            channel: device_channel(req.tenant_id.as_str(), req.client_id.as_str(), req.device_id.as_str()),
            event: clone_bytes(&req.event),
        })
    }

    /// Where an event for a topic is published: the topic's channel in the tenant.
    pub fn publish_to_topic(&self, req: &SendEventToTopicRequest) -> (r: Result<Publish, PropellerError>)
        ensures
            match topic_publish_problem(*req) {
                Some(f) => r matches Err(e) && e@ == f,
                None => r matches Ok(p) && publish_view(p) == (topic_channel_name(req.tenant_id@, req.topic@), req.event@),
            },
    {
        if req.tenant_id.as_str().is_empty() {
            return Err(PropellerError::invalid_argument("tenant id is empty"));
        }
        if req.topic.as_str().is_empty() {
            return Err(PropellerError::invalid_argument("topic is empty"));
        }
        if req.event.len() == 0 {
            return Err(PropellerError::invalid_argument("event is empty"));
        }
        Ok(Publish {
            channel: topic_channel(req.tenant_id.as_str(), req.topic.as_str()),
            event: clone_bytes(&req.event),
        })
    }

    /// A batch of topic events, published in order until the first refused
    /// one: the messages before it, and its refusal.
    pub fn publish_to_topics(&self, requests: &Vec<SendEventToTopicRequest>) -> (r: TopicBatch)
        ensures
            r.publishes@.len() == first_refused(requests@, 0),
            forall|k: int| 0 <= k < r.publishes@.len() ==> publish_view(#[trigger] r.publishes@[k]) == (
                topic_channel_name(requests@[k].tenant_id@, requests@[k].topic@),
                requests@[k].event@,
            ),
            first_refused(requests@, 0) == requests@.len() ==> r.stopped is None,
            first_refused(requests@, 0) < requests@.len() ==> (r.stopped matches Some(e)
                && Some(e@) == topic_publish_problem(requests@[first_refused(requests@, 0)])),
    {
        proof {
            lemma_first_refused_bounds(requests@, 0);
        }
        let mut publishes: Vec<Publish> = Vec::new();
        let mut i: usize = 0;
        while i < requests.len()
            invariant
                i <= requests@.len(),
                i <= first_refused(requests@, 0),
                0 <= first_refused(requests@, 0) <= requests@.len(),
                forall|k: int| 0 <= k < first_refused(requests@, 0) ==> topic_publish_problem(#[trigger] requests@[k]) is None,
                first_refused(requests@, 0) < requests@.len() ==> topic_publish_problem(requests@[first_refused(requests@, 0)]) is Some,
                publishes@.len() == i,
                forall|k: int| 0 <= k < i ==> publish_view(#[trigger] publishes@[k]) == (
                    topic_channel_name(requests@[k].tenant_id@, requests@[k].topic@),
                    requests@[k].event@,
                ),
            decreases requests@.len() - i,
        {
            match self.publish_to_topic(&requests[i]) {
                Ok(p) => {
                    publishes.push(p);
                },
                Err(e) => {
                    assert(first_refused(requests@, 0) == i as int);
                    return TopicBatch { publishes, stopped: Some(e) };
                },
            }
            i += 1;
        }
        TopicBatch { publishes, stopped: None }
    }

    /// The channel a client's session joins for a topic.
    pub fn topic_subscribe(&self, tenant_id: &str, topic: &str) -> (r: Result<String, PropellerError>)
        ensures
            match topic_change_problem(tenant_id@, topic@) {
                Some(f) => r matches Err(e) && e@ == f,
                None => r matches Ok(c) && c@ == topic_channel_name(tenant_id@, topic@),
            },
    {
        if topic.is_empty() {
            return Err(PropellerError::invalid_argument("topic is empty"));
        }
        if tenant_id.is_empty() {
            return Err(PropellerError::invalid_argument("tenant id is empty"));
        }
        Ok(topic_channel(tenant_id, topic))
    }

    /// The channel a client's session leaves for a topic.
    pub fn topic_unsubscribe(&self, tenant_id: &str, topic: &str) -> (r: Result<String, PropellerError>)
        ensures
            match topic_change_problem(tenant_id@, topic@) {
                Some(f) => r matches Err(e) && e@ == f,
                None => r matches Ok(c) && c@ == topic_channel_name(tenant_id@, topic@),
            },
    {
        if topic.is_empty() {
            return Err(PropellerError::invalid_argument("topic is empty"));
        }
        if tenant_id.is_empty() {
            return Err(PropellerError::invalid_argument("tenant id is empty"));
        }
        Ok(topic_channel(tenant_id, topic))
    }

    /// The hash key under which a client's active devices are kept.
    pub fn get_active_devices(&self, req: &GetActiveDevicesRequest) -> (r: Result<String, PropellerError>)
        ensures
            match devices_problem(self.settings(), *req) {
                Some(f) => r matches Err(e) && e@ == f,
                None => r matches Ok(k) && k@ == device_store_key_of(req.tenant_id@, req.client_id@),
            },
    {
        if !self.config.enable_device_support {
            return Err(PropellerError::failed_precondition("device support is disabled"));
        }
        if req.client_id.as_str().is_empty() {
            return Err(PropellerError::invalid_argument("client id is empty"));
        }
        if req.tenant_id.as_str().is_empty() {
            return Err(PropellerError::invalid_argument("tenant id is empty"));
        }
        Ok(device_store_key(req.tenant_id.as_str(), req.client_id.as_str()))
    }
}

} // verus!
