use vstd::prelude::*;
use vstd::utf8::encode_utf8;

use crate::auth::{
    bearer_token, auth_route, authenticate_spec, claims_identity, claims_problem, client_channel_name, device_channel_name,
    finish_spec, api_key_problem, has_text, request_bearer, topic_channel_name, AuthRoute, StepView,
};
use crate::claims::{audience_accepts, claim_text, JwtClaims};
use crate::config::{opt_str_view, AuthConfig, ClientConfig, JwtConfig};
use crate::error::ErrorKind;
use crate::grpc::elapsed_ns;
use crate::headers::Headers;
use crate::text::{assoc_lookup, lemma_assoc_lookup_none, lemma_assoc_lookup_push, same_name};
use crate::metrics::{bumped, lowered, Counter, Metrics};
use crate::payments::{
    idempotency_key_of, route_from, unicode_lowercase, uuid_text, webhook_action_of, GatewayWebhookEvent, MockGateway,
    PaymentGateway, PaymentMethod, WebhookAction, CHECKOUT_TTL_NS,
};
use crate::push::{
    attribute_map, device_store_key_of, json_string_map, listed_attributes, subscription_of, tracked_device, Device,
};
use crate::token::{base64url_decoded, hmac_key_block, hmac_sha256_of, sha256_digest, signing_input, token_segments};
use crate::ws::{keepalive_action, since_ns, secs_to_ns, KeepaliveAction, WsKeepalive};

verus! {

/// The namespace of a tenant: every channel of the tenant starts with it.
pub open spec fn tenant_prefix(tenant: Seq<char>) -> Seq<char> {
    "tenant:"@ + tenant + ":"@
}

pub open spec fn has_prefix(s: Seq<char>, p: Seq<char>) -> bool {
    p.len() <= s.len() && s.subrange(0, p.len() as int) == p
}

pub open spec fn colon_free(s: Seq<char>) -> bool {
    forall|k: int| 0 <= k < s.len() ==> s[k] != ':'
}

/// A device's channel is its client's channel with the device appended.
pub proof fn law_device_channel_extends_client_channel(tenant: Seq<char>, client: Seq<char>, device: Seq<char>)
    ensures
        device_channel_name(tenant, client, device) == client_channel_name(tenant, client) + ":device:"@ + device,
{
}

/// Every channel of a tenant, client, device or topic, lies in the tenant's namespace.
pub proof fn law_channels_within_tenant(tenant: Seq<char>, client: Seq<char>, device: Seq<char>, topic: Seq<char>)
    ensures
        has_prefix(client_channel_name(tenant, client), tenant_prefix(tenant)),
        has_prefix(device_channel_name(tenant, client, device), tenant_prefix(tenant)),
        has_prefix(topic_channel_name(tenant, topic), tenant_prefix(tenant)),
{
    reveal_strlit(":client:");
    reveal_strlit(":topic:");
    reveal_strlit(":");
    let p = tenant_prefix(tenant);
    assert(client_channel_name(tenant, client).subrange(0, p.len() as int) =~= p);
    assert(device_channel_name(tenant, client, device).subrange(0, p.len() as int) =~= p);
    assert(topic_channel_name(tenant, topic).subrange(0, p.len() as int) =~= p);
}

proof fn lemma_namespaces_disjoint(t1: Seq<char>, t2: Seq<char>, a: Seq<char>, b: Seq<char>)
    requires
        t1 != t2,
        colon_free(t1),
        colon_free(t2),
        has_prefix(a, tenant_prefix(t1)),
        has_prefix(b, tenant_prefix(t2)),
    ensures
        a != b,
{
    reveal_strlit("tenant:");
    reveal_strlit(":");
    let p1 = tenant_prefix(t1);
    let p2 = tenant_prefix(t2);
    let n1 = t1.len() as int;
    let n2 = t2.len() as int;
    assert(p1[7 + n1] == ':');
    assert(p2[7 + n2] == ':');
    if a == b {
        if t1.len() < t2.len() {
            assert(a[7 + n1] == p1[7 + n1]);
            assert(b[7 + n1] == p2[7 + n1]);
            assert(p2[7 + n1] == t2[n1]);
        } else if t1.len() > t2.len() {
            assert(a[7 + n2] == p1[7 + n2]);
            assert(b[7 + n2] == p2[7 + n2]);
            assert(p1[7 + n2] == t1[n2]);
        } else {
            assert(exists|k: int| 0 <= k < t1.len() && t1[k] != t2[k]) by {
                if forall|k: int| 0 <= k < t1.len() ==> t1[k] == t2[k] {
                    assert(t1 =~= t2);
                }
            }
            let k = choose|k: int| 0 <= k < t1.len() && t1[k] != t2[k];
            assert(a[7 + k] == p1[7 + k]);
            assert(b[7 + k] == p2[7 + k]);
            assert(p1[7 + k] == t1[k]);
            assert(p2[7 + k] == t2[k]);
        }
    }
}

/// Tenants never share a channel: for tenant ids without `:`, no channel of
/// one tenant (client, device or topic) is a channel of another.
pub proof fn law_tenants_do_not_share_channels(
    t1: Seq<char>,
    t2: Seq<char>,
    c1: Seq<char>,
    c2: Seq<char>,
    d1: Seq<char>,
    d2: Seq<char>,
    topic2: Seq<char>,
)
    requires
        t1 != t2,
        colon_free(t1),
        colon_free(t2),
    ensures
        client_channel_name(t1, c1) != client_channel_name(t2, c2),
        client_channel_name(t1, c1) != device_channel_name(t2, c2, d2),
        client_channel_name(t1, c1) != topic_channel_name(t2, topic2),
        device_channel_name(t1, c1, d1) != device_channel_name(t2, c2, d2),
        topic_channel_name(t1, topic2) != topic_channel_name(t2, topic2),
        topic_channel_name(t1, c1) != client_channel_name(t2, c2),
{
    law_channels_within_tenant(t1, c1, d1, topic2);
    law_channels_within_tenant(t2, c2, d2, topic2);
    law_channels_within_tenant(t1, c1, d2, c1);
    lemma_namespaces_disjoint(t1, t2, client_channel_name(t1, c1), client_channel_name(t2, c2));
    lemma_namespaces_disjoint(t1, t2, client_channel_name(t1, c1), device_channel_name(t2, c2, d2));
    lemma_namespaces_disjoint(t1, t2, client_channel_name(t1, c1), topic_channel_name(t2, topic2));
    lemma_namespaces_disjoint(t1, t2, device_channel_name(t1, c1, d1), device_channel_name(t2, c2, d2));
    lemma_namespaces_disjoint(t1, t2, topic_channel_name(t1, topic2), topic_channel_name(t2, topic2));
    lemma_namespaces_disjoint(t1, t2, topic_channel_name(t1, c1), client_channel_name(t2, c2));
}

/// Text made of a prefix, a colon-free part and a rest starting with `:`
/// determines the part and the rest.
proof fn lemma_split_colon_free(p: Seq<char>, a1: Seq<char>, x1: Seq<char>, a2: Seq<char>, x2: Seq<char>)
    requires
        colon_free(a1),
        colon_free(a2),
        x1.len() > 0,
        x2.len() > 0,
        x1[0] == ':',
        x2[0] == ':',
        p + a1 + x1 == p + a2 + x2,
    ensures
        a1 == a2,
        x1 == x2,
{
    let s1 = p + a1 + x1;
    let s2 = p + a2 + x2;
    let n = p.len() as int;
    if a1.len() < a2.len() {
        assert(s1[n + a1.len()] == x1[0]);
        assert(s2[n + a1.len()] == a2[a1.len() as int]);
    } else if a1.len() > a2.len() {
        assert(s2[n + a2.len()] == x2[0]);
        assert(s1[n + a2.len()] == a1[a2.len() as int]);
    } else {
        assert(a1 =~= s1.subrange(n, n + a1.len()));
        assert(a2 =~= s2.subrange(n, n + a2.len()));
        assert(x1 =~= s1.subrange(n + a1.len(), s1.len() as int));
        assert(x2 =~= s2.subrange(n + a2.len(), s2.len() as int));
    }
}

proof fn lemma_drop_prefix(q: Seq<char>, u: Seq<char>, v: Seq<char>)
    requires
        q + u == q + v,
    ensures
        u == v,
{
    assert(u =~= (q + u).subrange(q.len() as int, (q + u).len() as int));
    assert(v =~= (q + v).subrange(q.len() as int, (q + v).len() as int));
}

/// For colon-free tenant ids, a client channel names one tenant and client.
proof fn lemma_client_channel_injective(t1: Seq<char>, c1: Seq<char>, t2: Seq<char>, c2: Seq<char>)
    requires
        colon_free(t1),
        colon_free(t2),
        client_channel_name(t1, c1) == client_channel_name(t2, c2),
    ensures
        t1 == t2,
        c1 == c2,
{
    reveal_strlit(":client:");
    assert(client_channel_name(t1, c1) =~= "tenant:"@ + t1 + (":client:"@ + c1));
    assert(client_channel_name(t2, c2) =~= "tenant:"@ + t2 + (":client:"@ + c2));
    lemma_split_colon_free("tenant:"@, t1, ":client:"@ + c1, t2, ":client:"@ + c2);
    lemma_drop_prefix(":client:"@, c1, c2);
}

/// For colon-free tenant and client ids, a device channel names one tenant,
/// client and device.
proof fn lemma_device_channel_injective(
    t1: Seq<char>,
    c1: Seq<char>,
    d1: Seq<char>,
    t2: Seq<char>,
    c2: Seq<char>,
    d2: Seq<char>,
)
    requires
        colon_free(t1),
        colon_free(t2),
        colon_free(c1),
        colon_free(c2),
        device_channel_name(t1, c1, d1) == device_channel_name(t2, c2, d2),
    ensures
        t1 == t2,
        c1 == c2,
        d1 == d2,
{
    reveal_strlit(":client:");
    reveal_strlit(":device:");
    let r1 = ":client:"@ + (c1 + ":device:"@ + d1);
    let r2 = ":client:"@ + (c2 + ":device:"@ + d2);
    assert(device_channel_name(t1, c1, d1) =~= "tenant:"@ + t1 + r1);
    assert(device_channel_name(t2, c2, d2) =~= "tenant:"@ + t2 + r2);
    lemma_split_colon_free("tenant:"@, t1, r1, t2, r2);
    lemma_drop_prefix(":client:"@, c1 + ":device:"@ + d1, c2 + ":device:"@ + d2);
    assert(Seq::<char>::empty() + c1 + (":device:"@ + d1) =~= c1 + ":device:"@ + d1);
    assert(Seq::<char>::empty() + c2 + (":device:"@ + d2) =~= c2 + ":device:"@ + d2);
    lemma_split_colon_free(Seq::empty(), c1, ":device:"@ + d1, c2, ":device:"@ + d2);
    lemma_drop_prefix(":device:"@, d1, d2);
}

/// For colon-free tenant ids and a colon-free client id, a client channel is
/// never a device channel.
proof fn lemma_client_not_device(t1: Seq<char>, c1: Seq<char>, t2: Seq<char>, c2: Seq<char>, d2: Seq<char>)
    requires
        colon_free(t1),
        colon_free(t2),
        colon_free(c1),
    ensures
        client_channel_name(t1, c1) != device_channel_name(t2, c2, d2),
{
    reveal_strlit(":client:");
    reveal_strlit(":device:");
    if client_channel_name(t1, c1) == device_channel_name(t2, c2, d2) {
        let r1 = ":client:"@ + c1;
        let r2 = ":client:"@ + (c2 + ":device:"@ + d2);
        assert(client_channel_name(t1, c1) =~= "tenant:"@ + t1 + r1);
        assert(device_channel_name(t2, c2, d2) =~= "tenant:"@ + t2 + r2);
        lemma_split_colon_free("tenant:"@, t1, r1, t2, r2);
        lemma_drop_prefix(":client:"@, c1, c2 + ":device:"@ + d2);
        assert(c1[c2.len() as int] == ':');
    }
}

/// For colon-free tenant ids, a topic channel is never a client or device channel.
proof fn lemma_topic_not_client(t1: Seq<char>, x: Seq<char>, t2: Seq<char>, c2: Seq<char>, d2: Seq<char>)
    requires
        colon_free(t1),
        colon_free(t2),
    ensures
        topic_channel_name(t1, x) != client_channel_name(t2, c2),
        topic_channel_name(t1, x) != device_channel_name(t2, c2, d2),
{
    reveal_strlit(":client:");
    reveal_strlit(":device:");
    reveal_strlit(":topic:");
    let r1 = ":topic:"@ + x;
    assert(topic_channel_name(t1, x) =~= "tenant:"@ + t1 + r1);
    if topic_channel_name(t1, x) == client_channel_name(t2, c2) {
        let r2 = ":client:"@ + c2;
        assert(client_channel_name(t2, c2) =~= "tenant:"@ + t2 + r2);
        lemma_split_colon_free("tenant:"@, t1, r1, t2, r2);
        assert(r1[1] != r2[1]);
    }
    if topic_channel_name(t1, x) == device_channel_name(t2, c2, d2) {
        let r2 = ":client:"@ + (c2 + ":device:"@ + d2);
        assert(device_channel_name(t2, c2, d2) =~= "tenant:"@ + t2 + r2);
        lemma_split_colon_free("tenant:"@, t1, r1, t2, r2);
        assert(r1[1] != r2[1]);
    }
}

/// Every subscription of a client listens on the channel that events for
/// that client are published on; one that announced a device (with device
/// support on) also listens on that device's channel.
pub proof fn law_events_reach_their_subscriber(cc: ClientConfig, tenant: Seq<char>, client: Seq<char>, device: Option<Device>)
    ensures
        subscription_of(cc, tenant, client, device).0.contains(client_channel_name(tenant, client)),
        tracked_device(cc, device) matches Some(d) ==> subscription_of(cc, tenant, client, device).0.contains(
            device_channel_name(tenant, client, d.id@),
        ),
{
    let chans = subscription_of(cc, tenant, client, device).0;
    assert(chans[0] == client_channel_name(tenant, client));
    if let Some(d) = tracked_device(cc, device) {
        assert(chans[1] == device_channel_name(tenant, client, d.id@));
    }
}

/// Events reach no one else: for tenant and client ids without `:`, a
/// subscription listens on a client's channel only if it is that client's
/// own, on a device's channel only if it announced that device, and never
/// on a topic's channel.
pub proof fn law_events_reach_only_their_subscriber(
    cc: ClientConfig,
    tenant: Seq<char>,
    client: Seq<char>,
    device_id: Seq<char>,
    topic: Seq<char>,
    sub_tenant: Seq<char>,
    sub_client: Seq<char>,
    sub_device: Option<Device>,
)
    requires
        colon_free(tenant),
        colon_free(client),
        colon_free(sub_tenant),
        colon_free(sub_client),
    ensures
        subscription_of(cc, sub_tenant, sub_client, sub_device).0.contains(client_channel_name(tenant, client))
            <==> (tenant == sub_tenant && client == sub_client),
        subscription_of(cc, sub_tenant, sub_client, sub_device).0.contains(device_channel_name(tenant, client, device_id))
            <==> (tenant == sub_tenant && client == sub_client && (tracked_device(cc, sub_device) matches Some(d)
            && d.id@ == device_id)),
        !subscription_of(cc, sub_tenant, sub_client, sub_device).0.contains(topic_channel_name(tenant, topic)),
{
    let chans = subscription_of(cc, sub_tenant, sub_client, sub_device).0;
    let own = client_channel_name(sub_tenant, sub_client);
    law_events_reach_their_subscriber(cc, sub_tenant, sub_client, sub_device);
    lemma_topic_not_client(tenant, topic, sub_tenant, sub_client, Seq::empty());
    lemma_client_not_device(sub_tenant, sub_client, tenant, client, device_id);
    if chans.contains(client_channel_name(tenant, client)) {
        let i = choose|i: int| 0 <= i < chans.len() && chans[i] == client_channel_name(tenant, client);
        if i == 0 {
            lemma_client_channel_injective(tenant, client, sub_tenant, sub_client);
        } else {
            let d = tracked_device(cc, sub_device).unwrap();
            lemma_client_not_device(tenant, client, sub_tenant, sub_client, d.id@);
        }
    }
    if chans.contains(device_channel_name(tenant, client, device_id)) {
        let i = choose|i: int| 0 <= i < chans.len() && chans[i] == device_channel_name(tenant, client, device_id);
        if i == 1 {
            let d = tracked_device(cc, sub_device).unwrap();
            lemma_device_channel_injective(tenant, client, device_id, sub_tenant, sub_client, d.id@);
        }
    }
    if chans.contains(topic_channel_name(tenant, topic)) {
        let i = choose|i: int| 0 <= i < chans.len() && chans[i] == topic_channel_name(tenant, topic);
        if i == 1 {
            let d = tracked_device(cc, sub_device).unwrap();
            lemma_topic_not_client(tenant, topic, sub_tenant, sub_client, d.id@);
        }
    }
}

/// A device a subscription records is kept under the key that listing the
/// client's devices reads, with the device's id as its field.
pub proof fn law_recorded_device_is_listed(cc: ClientConfig, tenant: Seq<char>, client: Seq<char>, device: Option<Device>)
    ensures
        subscription_of(cc, tenant, client, device).1 matches Some((key, field)) ==> (key == device_store_key_of(tenant, client)
            && cc.enable_device_support && (device matches Some(d) && field == d.id@)),
{
}

/// A hash store of device records: each key holds fields, each with a value.
pub open spec fn hash_fields(store: Map<Seq<char>, Map<Seq<char>, Seq<char>>>, key: Seq<char>) -> Map<Seq<char>, Seq<char>> {
    if store.dom().contains(key) {
        store[key]
    } else {
        Map::empty()
    }
}

/// The store after a field of `key` is set to `value`.
pub open spec fn hash_set(
    store: Map<Seq<char>, Map<Seq<char>, Seq<char>>>,
    key: Seq<char>,
    field: Seq<char>,
    value: Seq<char>,
) -> Map<Seq<char>, Map<Seq<char>, Seq<char>>> {
    store.insert(key, hash_fields(store, key).insert(field, value))
}

/// The store after a field of `key` is removed.
pub open spec fn hash_delete(store: Map<Seq<char>, Map<Seq<char>, Seq<char>>>, key: Seq<char>, field: Seq<char>) -> Map<
    Seq<char>,
    Map<Seq<char>, Seq<char>>,
> {
    store.insert(key, hash_fields(store, key).remove(field))
}

/// Device records round trip through a hash store: once the entry a
/// subscription records (with device support on) is stored with a value,
/// listing the client's devices finds the device under its id, with that
/// value, whatever the store held before; once the entry that disconnecting
/// removes is deleted, the device is no longer listed. Other devices of the
/// client keep their records through both.
pub proof fn law_device_store_round_trip(
    store: Map<Seq<char>, Map<Seq<char>, Seq<char>>>,
    cc: ClientConfig,
    tenant: Seq<char>,
    client: Seq<char>,
    device: Device,
    value: Seq<char>,
    other_device: Seq<char>,
)
    requires
        cc.enable_device_support,
        other_device != device.id@,
    ensures
        subscription_of(cc, tenant, client, Some(device)).1 matches Some((key, field)) && {
            let listing = device_store_key_of(tenant, client);
            let stored = hash_set(store, key, field, value);
            let removed = hash_delete(stored, key, field);
            &&& hash_fields(stored, listing).dom().contains(device.id@)
            &&& hash_fields(stored, listing)[device.id@] == value
            &&& !hash_fields(removed, listing).dom().contains(device.id@)
            &&& hash_fields(stored, listing).dom().contains(other_device) == hash_fields(store, listing).dom().contains(other_device)
            &&& hash_fields(removed, listing).dom().contains(other_device) == hash_fields(store, listing).dom().contains(other_device)
            &&& (hash_fields(store, listing).dom().contains(other_device) ==> hash_fields(removed, listing)[other_device]
                == hash_fields(store, listing)[other_device])
        },
{
    let key = device_store_key_of(tenant, client);
    let stored = hash_set(store, key, device.id@, value);
    assert(hash_fields(stored, key) == hash_fields(store, key).insert(device.id@, value));
    assert(hash_fields(hash_delete(stored, key, device.id@), key) == hash_fields(stored, key).remove(device.id@));
}

/// A listed device has the attributes it announced: once a subscription's
/// device entry is stored with the value the subscription plans (its
/// attributes as a JSON object), listing the client's devices reads that
/// value back under the device's id, and the attributes it lists are the
/// announced ones.
pub proof fn law_listed_device_matches_announced(
    store: Map<Seq<char>, Map<Seq<char>, Seq<char>>>,
    cc: ClientConfig,
    tenant: Seq<char>,
    client: Seq<char>,
    device: Device,
    value: Seq<char>,
)
    requires
        cc.enable_device_support,
        json_string_map(value) == Some(attribute_map(device.attributes@)),
    ensures
        subscription_of(cc, tenant, client, Some(device)).1 matches Some((key, field)) && {
            let listed = hash_fields(hash_set(store, key, field, value), device_store_key_of(tenant, client));
            &&& listed.dom().contains(device.id@)
            &&& listed_attributes(listed[device.id@]) == attribute_map(device.attributes@)
        },
{
    law_device_store_round_trip(store, cc, tenant, client, device, value, device.id@.push('x'));
}

/// The marks of processed webhooks after one more is marked.
pub open spec fn marked(marks: Set<Seq<char>>, key: Seq<char>) -> Set<Seq<char>> {
    marks.insert(key)
}

/// A webhook repeated while the mark of its first delivery is kept has no
/// effect: the mark store reports its key as already marked, and a webhook
/// whose mark was already there is skipped, whatever its status.
pub proof fn law_repeated_webhook_is_skipped(marks: Set<Seq<char>>, first: GatewayWebhookEvent, repeat: GatewayWebhookEvent)
    requires
        repeat.gateway@ == first.gateway@,
        repeat.event_id@ == first.event_id@,
    ensures
        marked(marks, idempotency_key_of(first.gateway@, first.event_id@)).contains(
            idempotency_key_of(repeat.gateway@, repeat.event_id@),
        ),
        webhook_action_of(
            repeat.status,
            !marked(marks, idempotency_key_of(first.gateway@, first.event_id@)).contains(
                idempotency_key_of(repeat.gateway@, repeat.event_id@),
            ),
        ) == WebhookAction::SkipDuplicate,
{
}

/// Webhooks are told apart by gateway and event id: for gateway names
/// without `:`, two webhooks share an idempotency key exactly when they come
/// from the same gateway with the same event id.
pub proof fn law_idempotency_keys_identify_webhooks(g1: Seq<char>, e1: Seq<char>, g2: Seq<char>, e2: Seq<char>)
    requires
        colon_free(g1),
        colon_free(g2),
    ensures
        idempotency_key_of(g1, e1) == idempotency_key_of(g2, e2) <==> (g1 == g2 && e1 == e2),
{
    reveal_strlit(":");
    if idempotency_key_of(g1, e1) == idempotency_key_of(g2, e2) {
        assert(idempotency_key_of(g1, e1) =~= "idemp:webhook:"@ + g1 + (":"@ + e1));
        assert(idempotency_key_of(g2, e2) =~= "idemp:webhook:"@ + g2 + (":"@ + e2));
        lemma_split_colon_free("idemp:webhook:"@, g1, ":"@ + e1, g2, ":"@ + e2);
        lemma_drop_prefix(":"@, e1, e2);
    }
}

/// A field appended to a request is read back by its name, compared without
/// regard to ASCII case, unless an earlier field has that name: lookups of
/// names an earlier field has are unchanged, and other names still find
/// nothing.
pub proof fn law_appended_field_is_read_back(before: Headers, after: Headers, name: Seq<char>, value: Option<Seq<char>>, key: Seq<char>)
    requires
        after.fields@.len() == before.fields@.len() + 1,
        after.fields@.subrange(0, before.fields@.len() as int) == before.fields@,
        after.fields@.last().0@ == name,
        opt_str_view(after.fields@.last().1) == value,
    ensures
        after.lookup(key) == match assoc_lookup(before.fields@, key, true) {
            Some(_) => before.lookup(key),
            None => if same_name(name, key, true) {
                value
            } else {
                None
            },
        },
        assoc_lookup(before.fields@, name, true) is None ==> after.lookup(name) == value,
{
    let e = after.fields@.last();
    assert(after.fields@ =~= before.fields@.push(e));
    lemma_assoc_lookup_push(before.fields@, e, key, true);
    lemma_assoc_lookup_push(before.fields@, e, name, true);
}

/// Only a token whose signature is the HMAC-SHA256 of its header and
/// payload under the configured secret reaches the claims stage.
pub proof fn law_claims_stage_requires_valid_signature(cfg: AuthConfig, headers: Headers, cc: ClientConfig, missing: Seq<char>)
    requires
        authenticate_spec(cfg, headers, cc, missing) is CheckClaims,
    ensures
        cfg.enabled,
        cfg.jwt.hmac_secret is Some,
        request_bearer(headers) matches Some(tok) && token_segments(encode_utf8(tok)) matches Some((h, p, s))
            && base64url_decoded(s) == Some(hmac_sha256_of(encode_utf8(cfg.jwt.hmac_secret.unwrap()@), signing_input(h, p)))
            && authenticate_spec(cfg, headers, cc, missing) == StepView::CheckClaims(base64url_decoded(p).unwrap()),
{
}

/// A well-formed token signed with the configured secret reaches the claims
/// stage with its decoded payload.
pub proof fn law_signed_token_reaches_claims(cfg: AuthConfig, headers: Headers, cc: ClientConfig, missing: Seq<char>)
    requires
        cfg.enabled,
        cfg.jwt.hmac_secret is Some,
        request_bearer(headers) matches Some(tok) && token_segments(encode_utf8(tok)) matches Some((h, p, s))
            && base64url_decoded(s) == Some(hmac_sha256_of(encode_utf8(cfg.jwt.hmac_secret.unwrap()@), signing_input(h, p)))
            && base64url_decoded(p) is Some,
    ensures
        authenticate_spec(cfg, headers, cc, missing) is CheckClaims,
{
}

/// With auth disabled a request is never judged by a token: it is admitted
/// by its client header alone, not counted as a legacy fallback.
pub proof fn law_disabled_auth_ignores_tokens(cfg: AuthConfig, headers: Headers, cc: ClientConfig, missing: Seq<char>)
    requires
        !cfg.enabled,
    ensures
        auth_route(cfg, headers) == AuthRoute::Legacy(false),
        authenticate_spec(cfg, headers, cc, missing) is Decided,
{
}

/// With auth enabled and the legacy fallback off, a request without a
/// bearer token is refused.
pub proof fn law_no_token_no_entry(cfg: AuthConfig, headers: Headers, cc: ClientConfig, missing: Seq<char>)
    requires
        cfg.enabled,
        !cfg.legacy_header_mode,
        request_bearer(headers) is None,
    ensures
        authenticate_spec(cfg, headers, cc, missing) == StepView::Decided(Err((ErrorKind::Unauthenticated, missing))),
{
}

/// Accepted claims name the configured issuer and audience, carry an
/// expiry, and `now` lies within their validity window widened by the
/// clock skew.
pub proof fn law_accepted_claims_within_window(cfg: AuthConfig, claims: Option<JwtClaims>, now: Option<u64>)
    requires
        finish_spec(cfg, claims, now) is Ok,
    ensures
        claims matches Some(c) && now matches Some(n) && {
            &&& opt_str_view(c.iss) == Some(cfg.jwt.issuer@)
            &&& audience_accepts(c.aud, cfg.jwt.audience@)
            &&& c.exp matches Some(exp) && n <= exp + cfg.jwt.clock_skew_secs
            &&& (c.nbf matches Some(nbf) ==> nbf <= n + cfg.jwt.clock_skew_secs)
        },
{
}

/// Claims for another audience are refused as such.
pub proof fn law_wrong_audience_refused(cfg: AuthConfig, c: JwtClaims, now: Option<u64>)
    requires
        opt_str_view(c.iss) == Some(cfg.jwt.issuer@),
        !audience_accepts(c.aud, cfg.jwt.audience@),
    ensures
        finish_spec(cfg, Some(c), now) == Err::<((Seq<char>, Seq<char>, Seq<char>), bool), (ErrorKind, Seq<char>)>(
            (ErrorKind::Unauthenticated, "invalid jwt audience"@),
        ),
{
}

/// A publisher is admitted exactly when auth is off, or API keys are
/// configured and its `x-api-key` is one of them.
pub proof fn law_api_key_admission(cfg: AuthConfig, headers: Headers)
    ensures
        api_key_problem(cfg, headers) is None <==> (!cfg.enabled || (cfg.api_keys@.len() > 0
            && (headers.lookup("x-api-key"@) matches Some(k) && has_text(cfg.api_keys@, k)))),
{
}

/// A connection that opens and closes leaves every counter as it was:
/// `subscribed` (on the broker's success) counts it once, `disconnected`
/// takes it back once, and nothing else changes in between.
pub proof fn law_connection_count_restored(before: Metrics, opened: Metrics, closed: Metrics)
    requires
        opened.count(Counter::Connections) == bumped(before.count(Counter::Connections)),
        forall|d: Counter| d != Counter::Connections ==> opened.count(d) == before.count(d),
        closed.count(Counter::Connections) == lowered(opened.count(Counter::Connections)),
        forall|d: Counter| d != Counter::Connections ==> closed.count(d) == opened.count(d),
    ensures
        forall|c: Counter| closed.count(c) == before.count(c),
{
}

/// A checkout is opened by the first gateway, in order, that opens one.
pub proof fn law_router_first_success<G: PaymentGateway>(
    gws: Seq<G>,
    k: int,
    order_id: u128,
    payment_id: u128,
    method: PaymentMethod,
    now_ns: i128,
)
    requires
        0 <= k < gws.len(),
        gws[k].checkout_outcome(order_id, payment_id, method, now_ns) is Ok,
        forall|j: int| 0 <= j < k ==> (#[trigger] gws[j].checkout_outcome(order_id, payment_id, method, now_ns)) is Err,
    ensures
        route_from(gws, 0, order_id, payment_id, method, now_ns, None) == gws[k].checkout_outcome(order_id, payment_id, method, now_ns),
{
    lemma_route_skips_failures(gws, 0, k, order_id, payment_id, method, now_ns, None);
}

proof fn lemma_route_skips_failures<G: PaymentGateway>(
    gws: Seq<G>,
    i: int,
    k: int,
    order_id: u128,
    payment_id: u128,
    method: PaymentMethod,
    now_ns: i128,
    last: Option<Seq<char>>,
)
    requires
        0 <= i <= k < gws.len(),
        gws[k].checkout_outcome(order_id, payment_id, method, now_ns) is Ok,
        forall|j: int| 0 <= j < k ==> (#[trigger] gws[j].checkout_outcome(order_id, payment_id, method, now_ns)) is Err,
    ensures
        route_from(gws, i, order_id, payment_id, method, now_ns, last) == gws[k].checkout_outcome(order_id, payment_id, method, now_ns),
    decreases k - i,
{
    if i < k {
        let e = gws[i].checkout_outcome(order_id, payment_id, method, now_ns);
        lemma_route_skips_failures(gws, i + 1, k, order_id, payment_id, method, now_ns, Some(gws[i].label() + " failed: "@ + e->Err_0));
    }
}

/// When every gateway fails, the checkout fails with the last gateway's failure.
pub proof fn law_router_reports_last_failure<G: PaymentGateway>(
    gws: Seq<G>,
    order_id: u128,
    payment_id: u128,
    method: PaymentMethod,
    now_ns: i128,
)
    requires
        gws.len() > 0,
        forall|j: int| 0 <= j < gws.len() ==> (#[trigger] gws[j].checkout_outcome(order_id, payment_id, method, now_ns)) is Err,
    ensures
        route_from(gws, 0, order_id, payment_id, method, now_ns, None) == Err::<(Seq<char>, Seq<char>, i128), Seq<char>>(
            gws.last().label() + " failed: "@ + gws.last().checkout_outcome(order_id, payment_id, method, now_ns)->Err_0,
        ),
{
    lemma_route_all_fail(gws, 0, order_id, payment_id, method, now_ns, None);
}

proof fn lemma_route_all_fail<G: PaymentGateway>(
    gws: Seq<G>,
    i: int,
    order_id: u128,
    payment_id: u128,
    method: PaymentMethod,
    now_ns: i128,
    last: Option<Seq<char>>,
)
    requires
        0 <= i < gws.len(),
        forall|j: int| 0 <= j < gws.len() ==> (#[trigger] gws[j].checkout_outcome(order_id, payment_id, method, now_ns)) is Err,
    ensures
        route_from(gws, i, order_id, payment_id, method, now_ns, last) == Err::<(Seq<char>, Seq<char>, i128), Seq<char>>(
            gws.last().label() + " failed: "@ + gws.last().checkout_outcome(order_id, payment_id, method, now_ns)->Err_0,
        ),
    decreases gws.len() - i,
{
    let e = gws[i].checkout_outcome(order_id, payment_id, method, now_ns);
    let m = Some(gws[i].label() + " failed: "@ + e->Err_0);
    if i + 1 < gws.len() {
        lemma_route_all_fail(gws, i + 1, order_id, payment_id, method, now_ns, m);
    } else {
        assert(route_from(gws, i + 1, order_id, payment_id, method, now_ns, m) == Err::<(Seq<char>, Seq<char>, i128), Seq<char>>(m.unwrap()));
    }
}

/// A channel stream that heard from its client at `seen` is not closed as
/// idle before the timeout has passed.
pub proof fn law_fresh_stream_stays_open(seen: u64, now: u64, timeout_secs: u64)
    requires
        now <= seen + timeout_secs * 1_000_000_000,
    ensures
        !(elapsed_ns(seen, now) > timeout_secs * 1_000_000_000),
{
}

/// A WebSocket is closed by the keepalive only when a Ping has gone
/// unanswered for longer than the pong timeout; one that answers its Pings
/// is never closed by it.
pub proof fn law_ws_closed_only_for_unanswered_ping(k: WsKeepalive, now: u64)
    ensures
        keepalive_action(k, now) == KeepaliveAction::Close <==> (k.awaiting_pong && since_ns(k.last_ping_ns, now)
            > secs_to_ns(k.pong_timeout_secs)),
        !k.awaiting_pong ==> keepalive_action(k, now) != KeepaliveAction::Close,
{
}

// ---------------------------------------------------------------------------
// What the core operations compute, stated from their inputs
// ---------------------------------------------------------------------------

/// HMAC-SHA256 as RFC 2104 defines it, with a 64-byte block: a key of at
/// most 64 bytes is used as it is, zero-padded to the block; only a longer
/// key is first replaced by its SHA-256 digest. The MAC is the SHA-256 of the
/// key block xor 0x5c, followed by the SHA-256 of the key block xor 0x36 and
/// the message.
pub proof fn law_hmac_is_rfc2104(key: Seq<u8>, message: Seq<u8>)
    ensures
        hmac_key_block(key).len() == 64,
        key.len() <= 64 ==> forall|i: int| 0 <= i < 64 ==> #[trigger] hmac_key_block(key)[i] == if i < key.len() {
            key[i]
        } else {
            0u8
        },
        ({
            let k = if key.len() <= 64 { key } else { sha256_digest(key) };
            let inner = Seq::new(64, |i: int| 0x36u8 ^ (if i < k.len() { k[i] } else { 0u8 }));
            let outer = Seq::new(64, |i: int| 0x5cu8 ^ (if i < k.len() { k[i] } else { 0u8 }));
            hmac_sha256_of(key, message) == sha256_digest(outer + sha256_digest(inner + message))
        }),
{
    let k = if key.len() <= 64 { key } else { sha256_digest(key) };
    let block = hmac_key_block(key);
    let inner = Seq::new(64, |i: int| 0x36u8 ^ (if i < k.len() { k[i] } else { 0u8 }));
    let outer = Seq::new(64, |i: int| 0x5cu8 ^ (if i < k.len() { k[i] } else { 0u8 }));
    assert(crate::token::xor_pad(block, 0x36u8) =~= inner);
    assert(crate::token::xor_pad(block, 0x5cu8) =~= outer);
}

/// Claims are accepted exactly when their issuer is the configured one, their
/// audience names the configured audience, they carry an expiry no earlier
/// than `now` less the clock skew, and any not-before time is no later than
/// `now` plus the clock skew.
pub proof fn law_claims_accepted_exactly_within_window(jwt: JwtConfig, c: JwtClaims, now: u64)
    ensures
        claims_problem(jwt, c, Some(now)) is None <==> {
            &&& opt_str_view(c.iss) == Some(jwt.issuer@)
            &&& audience_accepts(c.aud, jwt.audience@)
            &&& (c.exp matches Some(exp) && now <= exp + jwt.clock_skew_secs)
            &&& (c.nbf matches Some(nbf) ==> nbf <= now + jwt.clock_skew_secs)
        },
{
}

/// An earlier not-before time never turns accepted claims into refused ones,
/// and neither does leaving it out.
pub proof fn law_earlier_nbf_still_accepted(jwt: JwtConfig, c: JwtClaims, earlier: JwtClaims, now: u64)
    requires
        claims_problem(jwt, c, Some(now)) is None,
        earlier.iss == c.iss,
        earlier.aud == c.aud,
        earlier.exp == c.exp,
        earlier.nbf matches Some(e) ==> (c.nbf matches Some(n) && e <= n),
    ensures
        claims_problem(jwt, earlier, Some(now)) is None,
{
    law_claims_accepted_exactly_within_window(jwt, c, now);
    law_claims_accepted_exactly_within_window(jwt, earlier, now);
}

/// The tenant of accepted claims comes from the extra claim named by the
/// configured tenant claim: an identity's tenant is the text of such a claim;
/// without one the claims are refused; and where every claim of that name has
/// the text `t` and a client id or subject is present, the tenant is `t`.
pub proof fn law_tenant_from_configured_claim(cfg: AuthConfig, c: JwtClaims, t: Seq<char>)
    ensures
        claims_identity(cfg, c) matches Ok((_, tenant, _)) ==> exists|j: int|
            0 <= j < c.extra@.len() && (#[trigger] c.extra@[j]).0@ == cfg.tenant_claim@ && claim_text(c.extra@[j].1) == Some(tenant),
        (forall|j: int| 0 <= j < c.extra@.len() ==> (#[trigger] c.extra@[j]).0@ != cfg.tenant_claim@) ==> claims_identity(cfg, c) is Err,
        ({
            &&& exists|j: int| 0 <= j < c.extra@.len() && (#[trigger] c.extra@[j]).0@ == cfg.tenant_claim@
            &&& forall|j: int| 0 <= j < c.extra@.len() && (#[trigger] c.extra@[j]).0@ == cfg.tenant_claim@ ==> claim_text(c.extra@[j].1) == Some(t)
            &&& (c.client_id is Some || c.sub is Some)
        }) ==> (claims_identity(cfg, c) matches Ok((_, tenant, _)) && tenant == t),
{
    lemma_assoc_lookup_none(c.extra@, cfg.tenant_claim@, false);
}

/// A WebSocket keepalive tick, from the time since the last Ping (or the
/// connection's opening): with no Ping outstanding, one is sent once the
/// ping interval has passed and not before; with one outstanding, the
/// connection is closed once the pong timeout has passed and not before.
pub proof fn law_keepalive_acts_when_due(k: WsKeepalive, now: u64)
    requires
        k.last_ping_ns <= now,
    ensures
        !k.awaiting_pong ==> (keepalive_action(k, now) == if now - k.last_ping_ns >= k.ping_interval_secs * 1_000_000_000 {
            KeepaliveAction::SendPing
        } else {
            KeepaliveAction::Nothing
        }),
        k.awaiting_pong ==> (keepalive_action(k, now) == if now - k.last_ping_ns > k.pong_timeout_secs * 1_000_000_000 {
            KeepaliveAction::Close
        } else {
            KeepaliveAction::Nothing
        }),
{
}

/// Keepalive actions are never undone by waiting: a tick that would ping (or
/// close) would also do so at any later time.
pub proof fn law_keepalive_monotone_in_time(k: WsKeepalive, earlier: u64, later: u64)
    requires
        k.last_ping_ns <= earlier <= later,
    ensures
        keepalive_action(k, earlier) == KeepaliveAction::SendPing ==> keepalive_action(k, later) == KeepaliveAction::SendPing,
        keepalive_action(k, earlier) == KeepaliveAction::Close ==> keepalive_action(k, later) == KeepaliveAction::Close,
{
    law_keepalive_acts_when_due(k, earlier);
    law_keepalive_acts_when_due(k, later);
}

/// A mock checkout does not depend on the payment method; a working gateway
/// opens it at `https://mock-<lower-cased name>.example/checkout` with the
/// order's and then the payment's UUID, expiring one checkout lifetime after
/// `now`; a failing one reports itself unavailable.
pub proof fn law_mock_checkout(g: MockGateway, order_id: u128, payment_id: u128, method: PaymentMethod, now_ns: i128)
    ensures
        g.checkout_outcome(order_id, payment_id, method, now_ns) == g.checkout_outcome(
            order_id,
            payment_id,
            PaymentMethod::Upi,
            now_ns,
        ),
        g.should_fail ==> g.checkout_outcome(order_id, payment_id, method, now_ns) == Err::<(Seq<char>, Seq<char>, i128), Seq<char>>(
            g.gateway_name@ + " unavailable"@,
        ),
        !g.should_fail ==> (g.checkout_outcome(order_id, payment_id, method, now_ns) matches Ok((gw, url, expires)) && {
            &&& gw == g.gateway_name@
            &&& url == "https://mock-"@ + unicode_lowercase(g.gateway_name@) + ".example/checkout?order_id="@
                + uuid_text(order_id) + "&payment_id="@ + uuid_text(payment_id)
            &&& (now_ns <= i128::MAX - CHECKOUT_TTL_NS ==> expires == now_ns + CHECKOUT_TTL_NS)
        }),
{
}

/// A channel stream is closed as idle exactly when more than its timeout has
/// passed since the client was last heard from.
pub proof fn law_idle_exactly_after_timeout(seen: u64, now: u64, timeout_secs: u64)
    requires
        seen <= now,
    ensures
        (elapsed_ns(seen, now) > timeout_secs * 1_000_000_000) <==> (now - seen > timeout_secs * 1_000_000_000),
{
}

/// An `Authorization` value `Bearer <token>` (the scheme in either usual
/// case) carries its token, whatever the token holds; another scheme, or an
/// empty token, carries none.
pub proof fn law_bearer_token_read(t: Seq<char>)
    ensures
        t.len() > 0 ==> bearer_token("Bearer "@ + t) == Some(t),
        t.len() > 0 ==> bearer_token("bearer "@ + t) == Some(t),
        bearer_token("Basic "@ + t) is None,
        bearer_token("Bearer "@) is None,
{
    reveal_strlit("Bearer ");
    reveal_strlit("bearer ");
    reveal_strlit("Basic ");
    reveal_strlit("bearer");
    lemma_first_space("Bearer "@ + t, 6);
    lemma_first_space("bearer "@ + t, 6);
    lemma_first_space("Basic "@ + t, 5);
    lemma_first_space("Bearer "@, 6);
    let v = "Bearer "@ + t;
    assert(crate::text::ascii_lowercase(v.subrange(0, 6)) =~= crate::text::ascii_lowercase("bearer"@));
    let w = "bearer "@ + t;
    assert(crate::text::ascii_lowercase(w.subrange(0, 6)) =~= crate::text::ascii_lowercase("bearer"@));
    assert(v.subrange(7, v.len() as int) =~= t);
    assert(w.subrange(7, w.len() as int) =~= t);
    let b = "Basic "@ + t;
    assert(crate::text::ascii_lowercase(b.subrange(0, 5)).len() != crate::text::ascii_lowercase("bearer"@).len());
}

proof fn lemma_first_space(v: Seq<char>, i: int)
    requires
        0 <= i < v.len(),
        v[i] == ' ',
        forall|j: int| 0 <= j < i ==> v[j] != ' ',
    ensures
        crate::text::is_first_index(v, ' ', i),
        forall|k: int| crate::text::is_first_index(v, ' ', k) ==> k == i,
{
}

} // verus!
