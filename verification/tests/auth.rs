use base64::engine::general_purpose::URL_SAFE_NO_PAD;
use base64::Engine;

use propeller::auth::{client_channel, device_channel, extract_bearer, parse_scopes, topic_channel, AuthService, AuthStep};
use propeller::claims::{AudienceClaim, ClaimValue, JwtClaims};
use propeller::config::{AuthConfig, ClientConfig, JwtConfig};
use propeller::headers::Headers;
use propeller::token::{constant_time_eq, hmac_sha256};

fn test_auth_config() -> AuthConfig {
    AuthConfig {
        enabled: true,
        legacy_header_mode: false,
        tenant_claim: "tenant_id".to_string(),
        legacy_tenant: "legacy".to_string(),
        api_keys: vec!["dev-key".to_string()],
        jwt: JwtConfig {
            issuer: "issuer".to_string(),
            audience: "audience".to_string(),
            clock_skew_secs: 0,
            hmac_secret: Some("secret".to_string()),
            jwks_url: None,
        },
    }
}

fn test_client_config() -> ClientConfig {
    ClientConfig {
        header: "x-client-id".to_string(),
        device_header: "x-device-id".to_string(),
        enable_device_support: true,
        device_attribute_headers: vec!["x-os".to_string()],
    }
}

fn object(entries: Vec<(&str, serde_json::Value)>) -> serde_json::Value {
    let mut map = serde_json::Map::new();
    for (k, v) in entries {
        map.insert(k.to_string(), v);
    }
    serde_json::Value::Object(map)
}

fn build_jwt(secret: &str, payload: serde_json::Value) -> String {
    let header = object(vec![
        ("alg", serde_json::Value::String("HS256".to_string())),
        ("typ", serde_json::Value::String("JWT".to_string())),
    ]);
    let header_encoded = URL_SAFE_NO_PAD.encode(serde_json::to_vec(&header).expect("header encode"));
    let payload_encoded = URL_SAFE_NO_PAD.encode(serde_json::to_vec(&payload).expect("payload encode"));
    let signing_input = format!("{}.{}", header_encoded, payload_encoded);
    let sig = hmac_sha256(secret.as_bytes(), signing_input.as_bytes());
    let sig_encoded = URL_SAFE_NO_PAD.encode(sig);
    format!("{}.{}.{}", header_encoded, payload_encoded, sig_encoded)
}

/// The claims of a JSON payload, read as the service's front end reads them:
/// a registered claim that is present (and not null) must have its type, or
/// the payload is refused; every other member goes to `extra`.
fn claims_from_json(payload: &[u8]) -> Option<JwtClaims> {
    let value: serde_json::Value = serde_json::from_slice(payload).ok()?;
    let obj = value.as_object()?;
    let present = |k: &str| obj.get(k).filter(|v| !v.is_null());
    let text = |k: &str| -> Result<Option<String>, ()> {
        match present(k) {
            None => Ok(None),
            Some(v) => v.as_str().map(|s| Some(s.to_string())).ok_or(()),
        }
    };
    let number = |k: &str| -> Result<Option<u64>, ()> {
        match present(k) {
            None => Ok(None),
            Some(v) => v.as_u64().map(Some).ok_or(()),
        }
    };
    let scopes = match present("scopes") {
        None => None,
        Some(v) => {
            let items = v.as_array()?;
            let mut out = Vec::new();
            for item in items {
                out.push(item.as_str()?.to_string());
            }
            Some(out)
        }
    };
    let known = ["sub", "exp", "nbf", "iss", "aud", "client_id", "scope", "scopes"];
    let aud = present("aud").map(|v| match v {
        serde_json::Value::String(s) => AudienceClaim::Text(s.clone()),
        serde_json::Value::Array(items) => {
            AudienceClaim::List(items.iter().map(|i| i.as_str().map(|s| s.to_string())).collect())
        }
        _ => AudienceClaim::Other,
    });
    let extra = obj
        .iter()
        .filter(|(k, _)| !known.contains(&k.as_str()))
        .map(|(k, v)| {
            let cv = match v {
                serde_json::Value::String(s) => ClaimValue::Text(s.clone()),
                serde_json::Value::Number(n) => ClaimValue::Number(n.to_string()),
                _ => ClaimValue::Other,
            };
            (k.clone(), cv)
        })
        .collect();
    Some(JwtClaims {
        sub: text("sub").ok()?,
        exp: number("exp").ok()?,
        nbf: number("nbf").ok()?,
        iss: text("iss").ok()?,
        aud,
        client_id: text("client_id").ok()?,
        scope: text("scope").ok()?,
        scopes,
        extra,
    })
}

fn authenticate(auth: &AuthService, headers: &Headers) -> Result<(propeller::auth::AuthContext, bool), propeller::error::PropellerError> {
    match auth.authenticate_http(headers, &test_client_config()) {
        AuthStep::Decided(r) => r,
        AuthStep::CheckClaims(payload) => auth.finish_jwt(claims_from_json(&payload)),
    }
}

fn claims_payload(aud: &str) -> serde_json::Value {
    object(vec![
        ("iss", serde_json::Value::String("issuer".to_string())),
        ("aud", serde_json::Value::String(aud.to_string())),
        ("exp", serde_json::Value::from(4_102_444_800u64)),
        ("sub", serde_json::Value::String("user_1".to_string())),
        ("tenant_id", serde_json::Value::String("tenant_1".to_string())),
    ])
}

#[test]
fn channel_namespaces_are_canonical() {
    assert_eq!(client_channel("t1", "u1"), "tenant:t1:client:u1");
    assert_eq!(device_channel("t1", "u1", "d1"), "tenant:t1:client:u1:device:d1");
    assert_eq!(topic_channel("t1", "payment"), "tenant:t1:topic:payment");
}

#[test]
fn jwt_auth_success() {
    let auth = AuthService::new(test_auth_config());
    let token = build_jwt("secret", claims_payload("audience"));
    let mut headers = Headers::new();
    headers.append("authorization", &format!("Bearer {}", token));
    let (ctx, legacy) = authenticate(&auth, &headers).expect("jwt should authenticate");
    assert!(!legacy);
    assert_eq!(ctx.client_id, "user_1");
    assert_eq!(ctx.tenant_id, "tenant_1");
}

#[test]
fn jwt_auth_rejects_bad_audience() {
    let auth = AuthService::new(test_auth_config());
    let token = build_jwt("secret", claims_payload("wrong"));
    let mut headers = Headers::new();
    headers.append("authorization", &format!("Bearer {}", token));
    let err = authenticate(&auth, &headers).expect_err("audience mismatch should fail");
    assert!(err.to_string().contains("audience"));
}

fn headers_with(pairs: &[(&str, &str)]) -> Headers {
    let mut h = Headers::new();
    for (k, v) in pairs {
        h.append(k, v);
    }
    h
}

fn step_outcome(step: AuthStep) -> Result<(propeller::auth::AuthContext, bool), propeller::error::PropellerError> {
    match step {
        AuthStep::Decided(r) => r,
        AuthStep::CheckClaims(_) => panic!("expected a decision"),
    }
}

#[test]
fn device_channel_extends_client_channel() {
    let client = client_channel("acme", "u7");
    let device = device_channel("acme", "u7", "ipad");
    assert_eq!(device, format!("{}:device:ipad", client));
}

#[test]
fn tenants_do_not_share_channels() {
    assert_ne!(client_channel("a", "b:client:c"), client_channel("a:client:b", "c").replace("a:client:b", "zz"));
    assert_ne!(client_channel("t1", "x"), client_channel("t2", "x"));
    assert_ne!(topic_channel("t1", "x"), topic_channel("t2", "x"));
    assert!(device_channel("t1", "u", "d").starts_with("tenant:t1:"));
    assert!(topic_channel("t1", "p").starts_with("tenant:t1:"));
}

#[test]
fn bearer_extraction() {
    assert_eq!(extract_bearer("Bearer abc").as_deref(), Some("abc"));
    assert_eq!(extract_bearer("bEaReR abc").as_deref(), Some("abc"));
    assert_eq!(extract_bearer("Bearer  two words").as_deref(), Some(" two words"));
    assert_eq!(extract_bearer("Basic abc"), None);
    assert_eq!(extract_bearer("Bearer "), None);
    assert_eq!(extract_bearer("Bearer"), None);
    assert_eq!(extract_bearer("Bearerx abc"), None);
}

#[test]
fn hmac_matches_rfc4231_vectors() {
    let mac = hmac_sha256(&[0x0bu8; 20], b"Hi There");
    assert_eq!(
        mac,
        hex("b0344c61d8db38535ca8afceaf0bf12b881dc200c9833da726e9376c2e32cff7")
    );
    let mac = hmac_sha256(&[0xaau8; 131], b"Test Using Larger Than Block-Size Key - Hash Key First");
    assert_eq!(
        mac,
        hex("60e431591ee0b67f0d8a26aacbf5b77f8e0bc6213728c5140546040f0ee37f54")
    );
}

fn hex(s: &str) -> Vec<u8> {
    (0..s.len() / 2).map(|i| u8::from_str_radix(&s[2 * i..2 * i + 2], 16).unwrap()).collect()
}

#[test]
fn constant_time_eq_is_equality() {
    assert!(constant_time_eq(b"abc", b"abc"));
    assert!(!constant_time_eq(b"abc", b"abd"));
    assert!(!constant_time_eq(b"abc", b"ab"));
    assert!(constant_time_eq(b"", b""));
}

#[test]
fn token_format_and_signature_errors() {
    let auth = AuthService::new(test_auth_config());
    let msg = |t: &str| auth.verify_token(t).unwrap_err().to_string();
    assert_eq!(msg("a.b"), "unauthenticated: invalid jwt format");
    assert_eq!(msg("a.b.c.d"), "unauthenticated: invalid jwt format");
    assert_eq!(msg("a.b.!!"), "unauthenticated: invalid jwt signature encoding");
    let good = build_jwt("secret", claims_payload("audience"));
    let forged = build_jwt("other", claims_payload("audience"));
    assert_eq!(msg(&forged), "unauthenticated: jwt signature verification failed");
    let parts: Vec<&str> = good.split('.').collect();
    // a payload that is not base64 but signed correctly
    let signing_input = format!("{}.{}", parts[0], "***");
    let sig = URL_SAFE_NO_PAD.encode(hmac_sha256(b"secret", signing_input.as_bytes()));
    assert_eq!(msg(&format!("{}.***.{}", parts[0], sig)), "unauthenticated: invalid jwt payload");
    let payload = auth.verify_token(&good).unwrap();
    assert_eq!(payload, serde_json::to_vec(&claims_payload("audience")).unwrap());

    let mut cfg = test_auth_config();
    cfg.jwt.hmac_secret = None;
    let no_secret = AuthService::new(cfg);
    assert_eq!(no_secret.verify_token(&good).unwrap_err().to_string(), "internal: jwt secret not configured");
}

#[test]
fn legacy_and_refusal_routes() {
    let mut cfg = test_auth_config();
    cfg.enabled = false;
    let disabled = AuthService::new(cfg);
    let token = build_jwt("secret", claims_payload("audience"));
    let h = headers_with(&[("authorization", &format!("Bearer {}", token)), ("x-client-id", "u9")]);
    let (ctx, legacy) = step_outcome(disabled.authenticate_http(&h, &test_client_config())).unwrap();
    assert!(!legacy);
    assert_eq!((ctx.client_id.as_str(), ctx.tenant_id.as_str(), ctx.subject.as_str()), ("u9", "legacy", "u9"));
    assert!(ctx.scopes.is_empty());
    let err = step_outcome(disabled.authenticate_http(&Headers::new(), &test_client_config())).unwrap_err();
    assert_eq!(err.to_string(), "unauthenticated: missing client identity");

    let strict = AuthService::new(test_auth_config());
    let err = step_outcome(strict.authenticate_http(&headers_with(&[("x-client-id", "u9")]), &test_client_config())).unwrap_err();
    assert_eq!(err.to_string(), "unauthenticated: missing Authorization bearer token");
    let err = step_outcome(strict.authenticate_grpc(&headers_with(&[("x-client-id", "u9")]), &test_client_config())).unwrap_err();
    assert_eq!(err.to_string(), "unauthenticated: missing authorization bearer token");

    let mut cfg = test_auth_config();
    cfg.legacy_header_mode = true;
    let migrating = AuthService::new(cfg);
    let (ctx, legacy) = step_outcome(migrating.authenticate_grpc(&headers_with(&[("X-Client-Id", "u9")]), &test_client_config())).unwrap();
    assert!(legacy);
    assert_eq!(ctx.client_id, "u9");
}

#[test]
fn api_key_admission() {
    let auth = AuthService::new(test_auth_config());
    assert!(auth.authorize_api_key_grpc(&headers_with(&[("x-api-key", "dev-key")])).is_ok());
    assert_eq!(
        auth.authorize_api_key_grpc(&headers_with(&[("x-api-key", "nope")])).unwrap_err().to_string(),
        "permission denied: invalid api key"
    );
    assert_eq!(auth.authorize_api_key_grpc(&Headers::new()).unwrap_err().to_string(), "unauthenticated: missing x-api-key");
    let mut cfg = test_auth_config();
    cfg.api_keys.clear();
    assert_eq!(
        AuthService::new(cfg).authorize_api_key_grpc(&headers_with(&[("x-api-key", "dev-key")])).unwrap_err().to_string(),
        "unauthenticated: publisher api keys are not configured"
    );
    let mut cfg = test_auth_config();
    cfg.enabled = false;
    assert!(AuthService::new(cfg).authorize_api_key_grpc(&Headers::new()).is_ok());
}

fn base_claims() -> JwtClaims {
    JwtClaims {
        sub: Some("user_1".to_string()),
        exp: Some(1_000),
        nbf: None,
        iss: Some("issuer".to_string()),
        aud: Some(AudienceClaim::Text("audience".to_string())),
        client_id: None,
        scope: None,
        scopes: None,
        extra: vec![("tenant_id".to_string(), ClaimValue::Text("tenant_1".to_string()))],
    }
}

#[test]
fn claims_window_and_identity() {
    let mut cfg = test_auth_config();
    cfg.jwt.clock_skew_secs = 10;
    let auth = AuthService::new(cfg);
    let msg = |c: JwtClaims, now: Option<u64>| auth.validate_claims(&c, now).unwrap_err().to_string();
    assert!(auth.validate_claims(&base_claims(), Some(1_010)).is_ok());
    assert_eq!(msg(base_claims(), Some(1_011)), "unauthenticated: jwt expired");
    let mut c = base_claims();
    c.nbf = Some(500);
    assert_eq!(msg(c, Some(489)), "unauthenticated: jwt not active yet");
    let mut c = base_claims();
    c.nbf = Some(500);
    assert!(auth.validate_claims(&c, Some(490)).is_ok());
    let mut c = base_claims();
    c.exp = None;
    assert_eq!(msg(c, Some(1)), "unauthenticated: jwt exp missing");
    let mut c = base_claims();
    c.iss = Some("other".to_string());
    assert_eq!(msg(c, Some(1)), "unauthenticated: invalid jwt issuer");
    let mut c = base_claims();
    c.aud = Some(AudienceClaim::List(vec![None, Some("audience".to_string())]));
    assert!(auth.validate_claims(&c, Some(1)).is_ok());
    let mut c = base_claims();
    c.aud = Some(AudienceClaim::Other);
    assert_eq!(msg(c, Some(1)), "unauthenticated: invalid jwt audience");
    assert_eq!(msg(base_claims(), None), "internal: system time error");

    let mut c = base_claims();
    c.client_id = Some("svc".to_string());
    c.scope = Some("read  write\tread".to_string());
    c.scopes = Some(vec!["admin".to_string(), "write".to_string()]);
    let ctx = auth.context_from_claims(c).unwrap();
    assert_eq!((ctx.subject.as_str(), ctx.client_id.as_str(), ctx.tenant_id.as_str()), ("user_1", "svc", "tenant_1"));
    let mut scopes = ctx.scopes.clone();
    scopes.sort();
    assert_eq!(scopes, vec!["admin", "read", "write"]);

    let mut c = base_claims();
    c.sub = None;
    c.client_id = Some("svc".to_string());
    c.extra = vec![("tenant_id".to_string(), ClaimValue::Number("42".to_string()))];
    let ctx = auth.context_from_claims(c).unwrap();
    assert_eq!((ctx.subject.as_str(), ctx.tenant_id.as_str()), ("svc", "42"));

    let mut c = base_claims();
    c.extra = vec![("tenant_id".to_string(), ClaimValue::Other)];
    assert_eq!(auth.context_from_claims(c).unwrap_err().to_string(), "unauthenticated: missing tenant claim: tenant_id");
    let mut c = base_claims();
    c.sub = None;
    assert_eq!(auth.context_from_claims(c).unwrap_err().to_string(), "unauthenticated: missing client identity");

    assert_eq!(auth.finish_jwt_at(None, Some(1)).unwrap_err().to_string(), "unauthenticated: invalid jwt claims");
    let (ctx, legacy) = auth.finish_jwt_at(Some(base_claims()), Some(5)).unwrap();
    assert!(!legacy);
    assert_eq!(ctx.client_id, "user_1");
}

#[test]
fn scopes_are_words_and_entries_once() {
    let mut s = parse_scopes(Some(" a b\u{3000}c  a ".to_string()), Some(vec!["c".to_string(), "d".to_string()]));
    s.sort();
    assert_eq!(s, vec!["a", "b", "c", "d"]);
    assert!(parse_scopes(None, None).is_empty());
    assert!(parse_scopes(Some("   ".to_string()), None).is_empty());
}

#[test]
fn headers_lookup_ignores_ascii_case() {
    let mut h = Headers::new();
    h.append_opaque("x-bin");
    h.append("x-client-id", "first");
    h.append("x-client-id", "second");
    assert_eq!(h.get("X-Client-ID").as_deref(), Some("first"));
    assert_eq!(h.get("x-bin"), None);
    assert_eq!(h.get("missing"), None);
}

#[test]
fn appended_field_is_read_back() {
    let mut h = Headers::new();
    assert_eq!(h.get("x-device-id"), None);
    h.append("X-Device-Id", "phone");
    assert_eq!(h.get("x-device-id").as_deref(), Some("phone"));
    assert_eq!(h.get("X-DEVICE-ID").as_deref(), Some("phone"));
    h.append("x-device-id", "tablet");
    assert_eq!(h.get("x-device-id").as_deref(), Some("phone"));
    h.append_opaque("x-raw");
    assert_eq!(h.get("x-raw"), None);
    assert_eq!(h.get("x-other"), None);
}

#[test]
fn finished_tokens_grant_their_scopes() {
    let auth = AuthService::new(test_auth_config());
    let mut c = base_claims();
    c.exp = Some(4_102_444_800);
    c.scope = Some("read write".to_string());
    c.scopes = Some(vec!["admin".to_string(), "read".to_string()]);
    let (ctx, legacy) = auth.finish_jwt(Some(c)).unwrap();
    assert!(!legacy);
    let mut scopes = ctx.scopes.clone();
    scopes.sort();
    assert_eq!(scopes, vec!["admin", "read", "write"]);
}
