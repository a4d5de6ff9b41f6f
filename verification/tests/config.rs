use propeller::config::{
    default_legacy_tenant, default_tenant_claim, AppConfig, AuthConfig, AuthConfigRaw, BrokerConfig, ClientConfig,
    GrpcConfig, HttpConfig, JwtConfig, KeepaliveConfig, ServiceConfig,
};
use propeller::error::{PropellerError, StatusCode};

fn app_config(auth: AuthConfig) -> AppConfig {
    AppConfig {
        service: ServiceConfig { name: "propeller".to_string() },
        grpc: GrpcConfig { address: "0.0.0.0:50051".to_string(), ping_interval_secs: 10, ping_timeout_secs: 5, enable_reflection: false },
        http: HttpConfig { address: "0.0.0.0:8080".to_string() },
        broker: BrokerConfig { kind: "redis".to_string(), address: "redis://127.0.0.1".to_string() },
        client: ClientConfig {
            header: "x-client-id".to_string(),
            device_header: "x-device-id".to_string(),
            enable_device_support: true,
            device_attribute_headers: vec![],
        },
        auth,
        keepalive: KeepaliveConfig { ws_ping_interval_secs: 30, ws_pong_timeout_secs: 10, grpc_stream_idle_timeout_secs: 90 },
    }
}

fn complete_auth() -> AuthConfig {
    let mut a = AuthConfig::default();
    a.jwt.issuer = "iss".to_string();
    a.jwt.audience = "aud".to_string();
    a.jwt.hmac_secret = Some("s".to_string());
    a
}

#[test]
fn defaults_of_auth_section() {
    let a = AuthConfig::default();
    assert!(a.enabled && a.legacy_header_mode);
    assert_eq!(a.tenant_claim, "tenant_id");
    assert_eq!(a.legacy_tenant, "legacy");
    assert!(a.api_keys.is_empty());
    assert_eq!(a.jwt.clock_skew_secs, 30);
    assert!(a.jwt.hmac_secret.is_none() && a.jwt.jwks_url.is_none());
    assert_eq!(default_tenant_claim(), "tenant_id");
    assert_eq!(default_legacy_tenant(), "legacy");
}

#[test]
fn raw_auth_section_is_completed() {
    let a = AuthConfig::from_raw(AuthConfigRaw {
        enabled: None,
        legacy_header_mode: Some(false),
        tenant_claim: None,
        legacy_tenant: Some("old".to_string()),
        api_keys: None,
        jwt: None,
    });
    assert!(a.enabled);
    assert!(!a.legacy_header_mode);
    assert_eq!(a.tenant_claim, "tenant_id");
    assert_eq!(a.legacy_tenant, "old");
    assert!(a.api_keys.is_empty());
    assert_eq!(a.jwt.clock_skew_secs, 30);
    let b = AuthConfig::from_raw(AuthConfigRaw {
        enabled: Some(false),
        legacy_header_mode: None,
        tenant_claim: Some("org".to_string()),
        legacy_tenant: None,
        api_keys: Some(vec!["k".to_string()]),
        jwt: Some(JwtConfig { issuer: "i".to_string(), audience: "a".to_string(), clock_skew_secs: 1, hmac_secret: None, jwks_url: None }),
    });
    assert!(!b.enabled && b.legacy_header_mode);
    assert_eq!(b.tenant_claim, "org");
    assert_eq!(b.api_keys, vec!["k"]);
    assert_eq!(b.jwt.clock_skew_secs, 1);
}

#[test]
fn validation_messages() {
    assert!(app_config(complete_auth()).validate().is_ok());
    let mut a = complete_auth();
    a.jwt.issuer.clear();
    assert_eq!(app_config(a).validate().unwrap_err(), "auth.jwt.issuer is required when auth is enabled");
    let mut a = complete_auth();
    a.jwt.audience.clear();
    assert_eq!(app_config(a).validate().unwrap_err(), "auth.jwt.audience is required when auth is enabled");
    let mut a = complete_auth();
    a.tenant_claim.clear();
    assert_eq!(app_config(a).validate().unwrap_err(), "auth.tenant_claim must not be empty");
    let mut a = complete_auth();
    a.jwt.hmac_secret = Some(String::new());
    assert_eq!(app_config(a).validate().unwrap_err(), "auth.jwt.hmac_secret is required in this build");
    let mut a = AuthConfig::default();
    a.enabled = false;
    assert!(app_config(a).validate().is_ok());
    let mut a = complete_auth();
    a.jwt.jwks_url = Some("https://keys".to_string());
    let cfg = app_config(a);
    assert!(cfg.validate().is_ok());
    assert!(cfg.jwks_url_ignored());
}

#[test]
fn error_rendering_and_status() {
    let e = PropellerError::Broker("down".to_string());
    assert_eq!(e.to_string(), "broker error: down");
    assert_eq!(e.status(), (StatusCode::Internal, "down".to_string()));
    let e = PropellerError::NotFound("x".to_string());
    assert_eq!(e.to_string(), "not found: x");
    assert_eq!(e.status().0, StatusCode::NotFound);
    assert_eq!(PropellerError::failed_precondition("p").to_string(), "failed precondition: p");
    assert_eq!(PropellerError::invalid_argument("q").status().0, StatusCode::InvalidArgument);
    assert_eq!(PropellerError::permission_denied("r").status().0, StatusCode::PermissionDenied);
}
