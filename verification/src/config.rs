use vstd::prelude::*;
use vstd::string::*;

verus! {

/// The whole service configuration, as read from the configuration file.
#[derive(Debug, Clone)]
pub struct AppConfig {
    pub service: ServiceConfig,
    pub grpc: GrpcConfig,
    pub http: HttpConfig,
    pub broker: BrokerConfig,
    pub client: ClientConfig,
    pub auth: AuthConfig,
    pub keepalive: KeepaliveConfig,
}

#[derive(Debug, Clone)]
pub struct ServiceConfig {
    pub name: String,
}

#[derive(Debug, Clone)]
pub struct GrpcConfig {
    pub address: String,
    pub ping_interval_secs: u64,
    pub ping_timeout_secs: u64,
    pub enable_reflection: bool,
}

#[derive(Debug, Clone)]
pub struct HttpConfig {
    pub address: String,
}

#[derive(Debug, Clone)]
pub struct BrokerConfig {
    pub kind: String,
    pub address: String,
}

/// How clients identify themselves and their devices.
#[derive(Debug, Clone)]
pub struct ClientConfig {
    pub header: String,
    pub device_header: String,
    pub enable_device_support: bool,
    pub device_attribute_headers: Vec<String>,
}

/// Liveness limits of the long lived client streams.
#[derive(Debug, Clone, Copy)]
pub struct KeepaliveConfig {
    pub ws_ping_interval_secs: u64,
    pub ws_pong_timeout_secs: u64,
    pub grpc_stream_idle_timeout_secs: u64,
}

/// Who may connect and publish, and how bearer tokens are checked.
#[derive(Debug, Clone)]
pub struct AuthConfig {
    pub enabled: bool,
    pub legacy_header_mode: bool,
    pub tenant_claim: String,
    pub legacy_tenant: String,
    pub api_keys: Vec<String>,
    pub jwt: JwtConfig,
}

#[derive(Debug, Clone)]
pub struct JwtConfig {
    pub issuer: String,
    pub audience: String,
    pub clock_skew_secs: u64,
    pub hmac_secret: Option<String>,
    pub jwks_url: Option<String>,
}

/// The `[auth]` section as written in the file: every entry may be left out.
#[derive(Debug, Clone)]
pub struct AuthConfigRaw {
    pub enabled: Option<bool>,
    pub legacy_header_mode: Option<bool>,
    pub tenant_claim: Option<String>,
    pub legacy_tenant: Option<String>,
    pub api_keys: Option<Vec<String>>,
    pub jwt: Option<JwtConfig>,
}

pub open spec fn opt_str_view(o: Option<String>) -> Option<Seq<char>> {
    match o {
        Some(s) => Some(s@),
        None => None,
    }
}

/// Why a configuration with auth enabled is refused, if it is.
pub open spec fn auth_config_problem(a: AuthConfig) -> Option<Seq<char>> {
    if !a.enabled {
        None
    } else if a.jwt.issuer@.len() == 0 {
        Some("auth.jwt.issuer is required when auth is enabled"@)
    } else if a.jwt.audience@.len() == 0 {
        Some("auth.jwt.audience is required when auth is enabled"@)
    } else if a.tenant_claim@.len() == 0 {
        Some("auth.tenant_claim must not be empty"@)
    } else if match a.jwt.hmac_secret {
        Some(s) => s@.len() == 0,
        None => true,
    } {
        Some("auth.jwt.hmac_secret is required in this build"@)
    } else {
        None
    }
}

pub fn default_tenant_claim() -> (s: String)
    ensures
        s@ == "tenant_id"@,
{
    String::from_str("tenant_id")
}

pub fn default_legacy_tenant() -> (s: String)
    ensures
        s@ == "legacy"@,
{
    String::from_str("legacy")
}

impl AppConfig {
    /// Checks the loaded configuration; with auth enabled, issuer, audience,
    /// tenant claim and HMAC secret must all be present and non-empty.
    pub fn validate(&self) -> (r: Result<(), String>)
        ensures
            match auth_config_problem(self.auth) {
                None => r is Ok,
                Some(m) => r matches Err(e) && e@ == m,
            },
    {
        if !self.auth.enabled {
            return Ok(());
        }
        if self.auth.jwt.issuer.as_str().is_empty() {
            return Err(String::from_str("auth.jwt.issuer is required when auth is enabled"));
        }
        if self.auth.jwt.audience.as_str().is_empty() {
            return Err(String::from_str("auth.jwt.audience is required when auth is enabled"));
        }
        if self.auth.tenant_claim.as_str().is_empty() {
            return Err(String::from_str("auth.tenant_claim must not be empty"));
        }
        let secret_missing = match &self.auth.jwt.hmac_secret {
            Some(s) => s.as_str().is_empty(),
            None => true,
        };
        if secret_missing {
            return Err(String::from_str("auth.jwt.hmac_secret is required in this build"));
        }
        Ok(())
    }

    /// Whether a JWKS URL was configured, which this build does not use.
    pub fn jwks_url_ignored(&self) -> (b: bool)
        ensures
            b == (self.auth.enabled && self.auth.jwt.jwks_url is Some),
    {
        self.auth.enabled && self.auth.jwt.jwks_url.is_some()
    }
}

impl Default for JwtConfig {
    fn default() -> (c: Self)
        ensures
            c.issuer@.len() == 0,
            c.audience@.len() == 0,
            c.clock_skew_secs == 30,
            c.hmac_secret is None,
            c.jwks_url is None,
    {
        JwtConfig {
            issuer: String::new(),
            audience: String::new(),
            clock_skew_secs: 30,
            hmac_secret: None,
            jwks_url: None,
        }
    }
}

impl Default for AuthConfig {
    fn default() -> (c: Self)
        ensures
            c.enabled,
            c.legacy_header_mode,
            c.tenant_claim@ == "tenant_id"@,
            c.legacy_tenant@ == "legacy"@,
            c.api_keys@.len() == 0,
            c.jwt.issuer@.len() == 0,
            c.jwt.audience@.len() == 0,
            c.jwt.clock_skew_secs == 30,
            c.jwt.hmac_secret is None,
            c.jwt.jwks_url is None,
    {
        AuthConfig {
            enabled: true,
            legacy_header_mode: true,
            tenant_claim: default_tenant_claim(),
            legacy_tenant: default_legacy_tenant(),
            api_keys: Vec::new(),
            jwt: JwtConfig::default(),
        }
    }
}

impl AuthConfig {
    /// Completes the `[auth]` section: auth and legacy header mode are on
    /// unless turned off, the tenant claim is `tenant_id` and the legacy
    /// tenant `legacy` unless named, no API keys unless listed, and the JWT
    /// settings take their defaults when the `[auth.jwt]` table is absent.
    pub fn from_raw(raw: AuthConfigRaw) -> (c: AuthConfig)
        ensures
            c.enabled == match raw.enabled { Some(b) => b, None => true },
            c.legacy_header_mode == match raw.legacy_header_mode { Some(b) => b, None => true },
            c.tenant_claim@ == match raw.tenant_claim { Some(s) => s@, None => "tenant_id"@ },
            c.legacy_tenant@ == match raw.legacy_tenant { Some(s) => s@, None => "legacy"@ },
            c.api_keys@ == match raw.api_keys { Some(v) => v@, None => Seq::<String>::empty() },
            raw.jwt is Some ==> c.jwt == raw.jwt.unwrap(),
            raw.jwt is None ==> {
                &&& c.jwt.issuer@.len() == 0
                &&& c.jwt.audience@.len() == 0
                &&& c.jwt.clock_skew_secs == 30
                &&& c.jwt.hmac_secret is None
                &&& c.jwt.jwks_url is None
            },
    {
        let enabled = match raw.enabled {
            Some(b) => b,
            None => true,
        };
        let legacy_header_mode = match raw.legacy_header_mode {
            Some(b) => b,
            None => true,
        };
        let tenant_claim = match raw.tenant_claim {
            Some(s) => s,
            None => default_tenant_claim(),
        };
        let legacy_tenant = match raw.legacy_tenant {
            Some(s) => s,
            None => default_legacy_tenant(),
        };
        let api_keys = match raw.api_keys {
            Some(v) => v,
            None => Vec::new(),
        };
        let jwt = match raw.jwt {
            Some(j) => j,
            None => JwtConfig::default(),
        };
        AuthConfig { enabled, legacy_header_mode, tenant_claim, legacy_tenant, api_keys, jwt }
    }
}

} // verus!
