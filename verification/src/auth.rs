use vstd::prelude::*;
use vstd::string::*;
use vstd::utf8::encode_utf8;

use std::time::{Duration, SystemTime, UNIX_EPOCH};

use crate::claims::{aud_matches, audience_accepts, claim_text, value_to_string, JwtClaims};
use crate::config::{opt_str_view, AuthConfig, ClientConfig, JwtConfig};
use crate::error::{ErrorKind, PropellerError};
use crate::headers::Headers;
use crate::text::{
    assoc_find, assoc_lookup, chars_of, is_first_index, is_space, is_space_char, names_match,
    same_name,
};
use crate::token::{hs256_payload, hs256_verify};

verus! {

/// An error as the contracts see it: its kind and its message.
pub type Fault = (ErrorKind, Seq<char>);

// ---------------------------------------------------------------------------
// Channel names
// ---------------------------------------------------------------------------

/// The channel that carries every event addressed to one client of a tenant.
pub open spec fn client_channel_name(tenant: Seq<char>, client: Seq<char>) -> Seq<char> {
    "tenant:"@ + tenant + ":client:"@ + client
}

/// The channel that carries events addressed to one device of a client.
pub open spec fn device_channel_name(tenant: Seq<char>, client: Seq<char>, device: Seq<char>) -> Seq<
    char,
> {
    "tenant:"@ + tenant + ":client:"@ + client + ":device:"@ + device
}

/// The channel of a topic within a tenant.
pub open spec fn topic_channel_name(tenant: Seq<char>, topic: Seq<char>) -> Seq<char> {
    "tenant:"@ + tenant + ":topic:"@ + topic
}

pub fn client_channel(tenant_id: &str, client_id: &str) -> (r: String)
    ensures
        r@ == client_channel_name(tenant_id@, client_id@),
{
    let mut s = String::from_str("tenant:");
    s.append(tenant_id);
    s.append(":client:");
    s.append(client_id);
    s
}

pub fn device_channel(tenant_id: &str, client_id: &str, device_id: &str) -> (r: String)
    ensures
        r@ == device_channel_name(tenant_id@, client_id@, device_id@),
{
    let mut s = String::from_str("tenant:");
    s.append(tenant_id);
    s.append(":client:");
    s.append(client_id);
    s.append(":device:");
    s.append(device_id);
    s
}

pub fn topic_channel(tenant_id: &str, topic: &str) -> (r: String)
    ensures
        r@ == topic_channel_name(tenant_id@, topic@),
{
    let mut s = String::from_str("tenant:");
    s.append(tenant_id);
    s.append(":topic:");
    s.append(topic);
    s
}

// ---------------------------------------------------------------------------
// Bearer tokens in headers
// ---------------------------------------------------------------------------

/// The token of an `Authorization` value: the value is split at its first
/// space, the part before must be `bearer` in any ASCII case, and the part
/// after must not be empty.
pub open spec fn bearer_token(v: Seq<char>) -> Option<Seq<char>> {
    if exists|i: int| is_first_index(v, ' ', i) {
        let i = choose|i: int| is_first_index(v, ' ', i);
        let scheme = v.subrange(0, i);
        let token = v.subrange(i + 1, v.len() as int);
        if same_name(scheme, "bearer"@, true) && token.len() > 0 {
            Some(token)
        } else {
            None
        }
    } else {
        None
    }
}

pub fn extract_bearer(value: &str) -> (r: Option<String>)
    ensures
        opt_str_view(r) == bearer_token(value@),
{
    let chars = chars_of(value);
    let n = chars.len();
    let mut i: usize = 0;
    while i < n
        invariant
            n == chars@.len(),
            chars@ == value@,
            i <= n,
            forall|j: int| 0 <= j < i ==> chars@[j] != ' ',
        decreases n - i,
    {
        if chars[i] == ' ' {
            proof {
                assert(is_first_index(value@, ' ', i as int));
                let c = choose|c: int| is_first_index(value@, ' ', c);
                assert(c == i as int) by {
                    if c < i as int {
                        assert(value@[c] == ' ');
                    } else if c > i as int {
                        assert(value@[i as int] == ' ');
                    }
                }
            }
            let scheme = value.substring_char(0, i);
            if !names_match(scheme, "bearer", true) {
                return None;
            }
            let token = value.substring_char(i + 1, n);
            if token.unicode_len() == 0 {
                return None;
            }
            return Some(String::from_str(token));
        }
        i += 1;
    }
    assert forall|c: int| !is_first_index(value@, ' ', c) by {
        if is_first_index(value@, ' ', c) {
            assert(chars@[c] == ' ');
        }
    }
    None
}

/// The bearer token a request carries in its `authorization` field.
pub open spec fn request_bearer(headers: Headers) -> Option<Seq<char>> {
    match headers.lookup("authorization"@) {
        Some(v) => bearer_token(v),
        None => None,
    }
}

pub fn extract_request_bearer(headers: &Headers) -> (r: Option<String>)
    ensures
        opt_str_view(r) == request_bearer(*headers),
{
    match headers.get("authorization") {
        Some(v) => extract_bearer(v.as_str()),
        None => None,
    }
}

// ---------------------------------------------------------------------------
// Scopes
// ---------------------------------------------------------------------------

/// `s[a..b]` is one of the whitespace-separated words of `s`.
pub open spec fn is_word_at(s: Seq<char>, a: int, b: int) -> bool {
    &&& 0 <= a < b <= s.len()
    &&& forall|k: int| a <= k < b ==> !is_space_char(#[trigger] s[k])
    &&& (a == 0 || is_space_char(s[a - 1]))
    &&& (b == s.len() || is_space_char(s[b]))
}

/// `w` is one of the whitespace-separated words of `s` whose end lies before `lim`.
pub open spec fn word_before(s: Seq<char>, w: Seq<char>, lim: int) -> bool {
    exists|a: int, b: int| #[trigger] is_word_at(s, a, b) && b < lim && s.subrange(a, b) == w
}

/// `w` is one of the whitespace-separated words of `s`.
pub open spec fn is_word_of(s: Seq<char>, w: Seq<char>) -> bool {
    word_before(s, w, s.len() as int + 1)
}

pub open spec fn has_text(v: Seq<String>, w: Seq<char>) -> bool {
    exists|i: int| 0 <= i < v.len() && (#[trigger] v[i])@ == w
}

pub open spec fn distinct_texts(v: Seq<String>) -> bool {
    forall|i: int, j: int| 0 <= i < j < v.len() ==> (#[trigger] v[i])@ != (#[trigger] v[j])@
}

/// The scopes a token grants: the words of its `scope` claim and the
/// entries of its `scopes` claim.
pub open spec fn scope_granted(scope: Option<String>, scopes: Option<Vec<String>>, w: Seq<char>) -> bool {
    ||| (scope matches Some(s) && is_word_of(s@, w))
    ||| (scopes matches Some(v) && has_text(v@, w))
}

fn push_unique(out: &mut Vec<String>, item: String)
    requires
        distinct_texts(old(out)@),
    ensures
        distinct_texts(final(out)@),
        forall|w: Seq<char>| has_text(final(out)@, w) <==> (has_text(old(out)@, w) || w == item@),
{
    let mut i: usize = 0;
    while i < out.len()
        invariant
            i <= out@.len(),
            out@ == old(out)@,
            distinct_texts(out@),
            forall|j: int| 0 <= j < i ==> (#[trigger] out@[j])@ != item@,
        decreases out@.len() - i,
    {
        if out[i] == item {
            assert forall|w: Seq<char>| has_text(out@, w) <==> (has_text(out@, w) || w == item@) by {
                if w == item@ {
                    assert(out@[i as int]@ == w);
                }
            }
            return;
        }
        i += 1;
    }
    let ghost old_out = out@;
    out.push(item);
    assert forall|w: Seq<char>| has_text(out@, w) <==> (has_text(old_out, w) || w == item@) by {
        if has_text(old_out, w) {
            let k = choose|k: int| 0 <= k < old_out.len() && (#[trigger] old_out[k])@ == w;
            assert(out@[k] == old_out[k]);
        }
        if w == item@ {
            assert(out@[old_out.len() as int]@ == w);
        }
        if has_text(out@, w) {
            let k = choose|k: int| 0 <= k < out@.len() && (#[trigger] out@[k])@ == w;
            if k < old_out.len() {
                assert(old_out[k] == out@[k]);
            }
        }
    }
}

proof fn lemma_word_end(s: Seq<char>, start: int, i: int, a: int)
    requires
        0 <= start <= i < s.len(),
        forall|k: int| start <= k < i ==> !is_space_char(#[trigger] s[k]),
        start == 0 || is_space_char(s[start - 1]),
        is_word_at(s, a, i),
    ensures
        a == start,
{
    if a < start {
        assert(!is_space_char(s[start - 1]));
    } else if a > start {
        assert(!is_space_char(s[a - 1]));
    }
}

/// The scopes granted by the `scope` and `scopes` claims, each once.
pub fn parse_scopes(scope: Option<String>, scopes: Option<Vec<String>>) -> (out: Vec<String>)
    ensures
        distinct_texts(out@),
        forall|w: Seq<char>| has_text(out@, w) <==> scope_granted(scope, scopes, w),
{
    let mut out: Vec<String> = Vec::new();
    match &scope {
        Some(scope_val) => {
            let text = scope_val.as_str();
            let chars = chars_of(text);
            let n = chars.len();
            let ghost s = text@;
            let mut start: usize = 0;
            let mut i: usize = 0;
            while i < n
                invariant
                    s == text@,
                    chars@ == s,
                    n == s.len(),
                    start <= i <= n,
                    forall|k: int| start <= k < i ==> !is_space_char(#[trigger] s[k]),
                    start == 0 || is_space_char(s[start - 1]),
                    distinct_texts(out@),
                    forall|w: Seq<char>| has_text(out@, w) <==> word_before(s, w, i as int),
                decreases n - i,
            {
                let c = chars[i];
                if is_space(c) {
                    let ghost before = out@;
                    if start < i {
                        let word = String::from_str(text.substring_char(start, i));
                        push_unique(&mut out, word);
                        assert(is_word_at(s, start as int, i as int));
                    }
                    assert forall|w: Seq<char>| has_text(out@, w) <==> word_before(s, w, i + 1) by {
                        if word_before(s, w, i + 1) && !word_before(s, w, i as int) {
                            let (a, b) = choose|a: int, b: int|
                                #[trigger] is_word_at(s, a, b) && b < i + 1 && s.subrange(a, b) == w;
                            assert(b == i as int);
                            lemma_word_end(s, start as int, i as int, a);
                        }
                        if start < i && w == s.subrange(start as int, i as int) {
                            assert(is_word_at(s, start as int, i as int));
                        }
                    }
                    start = i + 1;
                } else {
                    assert forall|w: Seq<char>| word_before(s, w, i + 1) <==> word_before(s, w, i as int) by {
                        if word_before(s, w, i + 1) {
                            let (a, b) = choose|a: int, b: int|
                                #[trigger] is_word_at(s, a, b) && b < i + 1 && s.subrange(a, b) == w;
                            assert(b != i as int);
                        }
                    }
                }
                i += 1;
            }
            if start < n {
                let word = String::from_str(text.substring_char(start, n));
                push_unique(&mut out, word);
                assert(is_word_at(s, start as int, n as int));
            }
            assert forall|w: Seq<char>| has_text(out@, w) <==> is_word_of(scope_val@, w) by {
                if is_word_of(s, w) && !word_before(s, w, n as int) {
                    let (a, b) = choose|a: int, b: int|
                        #[trigger] is_word_at(s, a, b) && b < n + 1 && s.subrange(a, b) == w;
                    assert(b == n as int);
                    if start < n {
                        if a < start {
                            assert(!is_space_char(s[start as int - 1]));
                        } else if a > start {
                            assert(!is_space_char(s[a - 1]));
                        }
                    } else {
                        assert(!is_space_char(s[n as int - 1]));
                    }
                }
                if start < n && w == s.subrange(start as int, n as int) {
                    assert(is_word_at(s, start as int, n as int));
                }
            }
        },
        None => {},
    }
    let ghost after_scope = out@;
    assert(forall|w: Seq<char>| has_text(after_scope, w) <==> (scope matches Some(sv) && is_word_of(sv@, w)));
    match &scopes {
        Some(list) => {
            let mut j: usize = 0;
            while j < list.len()
                invariant
                    j <= list@.len(),
                    scopes == Some(*list),
                    distinct_texts(out@),
                    forall|w: Seq<char>| #![trigger has_text(out@, w)] has_text(out@, w) <==> (has_text(after_scope, w)
                        || has_text(list@.subrange(0, j as int), w)),
                decreases list@.len() - j,
            {
                let ghost prev = out@;
                assert(forall|w: Seq<char>| has_text(prev, w) <==> (has_text(after_scope, w)
                        || has_text(list@.subrange(0, j as int), w)));
                let item = list[j].clone();
                assert(item@ == list@[j as int]@);
                push_unique(&mut out, item);
                assert forall|w: Seq<char>| has_text(list@.subrange(0, j + 1), w) <==> (has_text(
                    list@.subrange(0, j as int),
                    w,
                ) || w == list@[j as int]@) by {
                    let sub = list@.subrange(0, j as int);
                    let sub1 = list@.subrange(0, j + 1);
                    if has_text(sub1, w) {
                        let k = choose|k: int| 0 <= k < sub1.len() && (#[trigger] sub1[k])@ == w;
                        if k < j {
                            assert(sub[k] == sub1[k]);
                        }
                    }
                    if has_text(sub, w) {
                        let k = choose|k: int| 0 <= k < sub.len() && (#[trigger] sub[k])@ == w;
                        assert(sub1[k] == sub[k]);
                    }
                    if w == list@[j as int]@ {
                        assert(sub1[j as int] == list@[j as int]);
                    }
                }
                assert forall|w: Seq<char>| has_text(out@, w) <==> (has_text(after_scope, w)
                    || has_text(list@.subrange(0, j + 1), w)) by {
                    assert(has_text(out@, w) <==> (has_text(prev, w) || w == item@));
                    assert(has_text(prev, w) <==> (has_text(after_scope, w) || has_text(list@.subrange(0, j as int), w)));
                }
                j += 1;
            }
            assert(j == list@.len());
            assert(list@.subrange(0, j as int) =~= list@);
            assert(forall|w: Seq<char>| #![trigger has_text(out@, w)] has_text(out@, w) <==> (has_text(after_scope, w)
                || has_text(list@.subrange(0, j as int), w)));
            assert forall|w: Seq<char>| has_text(out@, w) <==> scope_granted(scope, scopes, w) by {
                assert(has_text(out@, w) <==> (has_text(after_scope, w) || has_text(list@, w)));
            }
        },
        None => {
            assert forall|w: Seq<char>| has_text(out@, w) <==> scope_granted(scope, scopes, w) by {
                assert(has_text(out@, w) <==> has_text(after_scope, w));
            }
        },
    }
    out
}

// ---------------------------------------------------------------------------
// The authentication service
// ---------------------------------------------------------------------------

/// Who a request speaks for: the token's subject, its tenant, the client
/// whose channels it may use, and the scopes it was granted.
#[derive(Debug, Clone)]
pub struct AuthContext {
    pub subject: String,
    pub tenant_id: String,
    pub client_id: String,
    pub scopes: Vec<String>,
}

/// Subject, tenant and client, as the contracts see a context.
pub type Identity = (Seq<char>, Seq<char>, Seq<char>);

impl AuthContext {
    pub open spec fn identity(self) -> Identity {
        (self.subject@, self.tenant_id@, self.client_id@)
    }
}

/// What authenticating a request came to: a decision, or a payload whose
/// signature checked out and whose JSON claims the caller must parse and
/// hand to `AuthService::finish_jwt`.
#[derive(Debug)]
pub enum AuthStep {
    Decided(Result<(AuthContext, bool), PropellerError>),
    CheckClaims(Vec<u8>),
}

/// An authentication outcome as the contracts see it.
pub open spec fn outcome_view(r: Result<(AuthContext, bool), PropellerError>) -> Result<(Identity, bool), Fault> {
    match r {
        Ok((ctx, legacy)) => Ok((ctx.identity(), legacy)),
        Err(e) => Err(e@),
    }
}

pub enum StepView {
    Decided(Result<(Identity, bool), Fault>),
    CheckClaims(Seq<u8>),
}

pub open spec fn step_view(s: AuthStep) -> StepView {
    match s {
        AuthStep::Decided(r) => StepView::Decided(outcome_view(r)),
        AuthStep::CheckClaims(p) => StepView::CheckClaims(p@),
    }
}

/// Which way a request is authenticated.
pub enum AuthRoute {
    /// By the client header; the flag says whether this is the migration fallback.
    Legacy(bool),
    /// By the bearer token given.
    Token(Seq<char>),
    Refuse,
}

pub open spec fn auth_route(cfg: AuthConfig, headers: Headers) -> AuthRoute {
    if !cfg.enabled {
        AuthRoute::Legacy(false)
    } else {
        match request_bearer(headers) {
            Some(tok) => AuthRoute::Token(tok),
            None => if cfg.legacy_header_mode {
                AuthRoute::Legacy(true)
            } else {
                AuthRoute::Refuse
            },
        }
    }
}

/// A context from the client header alone, in the legacy tenant.
pub open spec fn legacy_identity(client: Seq<char>, legacy_tenant: Seq<char>) -> Result<Identity, Fault> {
    if client.len() == 0 {
        Err((ErrorKind::Unauthenticated, "missing client identity"@))
    } else {
        Ok((client, legacy_tenant, client))
    }
}

/// The client named by the configured client header, empty when absent.
pub open spec fn header_client(headers: Headers, cc: ClientConfig) -> Seq<char> {
    match headers.lookup(cc.header@) {
        Some(v) => v,
        None => Seq::empty(),
    }
}

/// The payload of a token under the configured secret, or why it is refused.
pub open spec fn jwt_payload(secret: Option<String>, tok: Seq<char>) -> Result<Seq<u8>, Fault> {
    match secret {
        None => Err((ErrorKind::Internal, "jwt secret not configured"@)),
        Some(s) => match hs256_payload(encode_utf8(s@), encode_utf8(tok)) {
            Ok(p) => Ok(p),
            Err(m) => Err((ErrorKind::Unauthenticated, m)),
        },
    }
}

/// What authenticating a request comes to; `missing` is the message of the
/// refusal when neither a token nor the legacy fallback applies.
pub open spec fn authenticate_spec(cfg: AuthConfig, headers: Headers, cc: ClientConfig, missing: Seq<char>) -> StepView {
    match auth_route(cfg, headers) {
        AuthRoute::Legacy(flag) => StepView::Decided(
            match legacy_identity(header_client(headers, cc), cfg.legacy_tenant@) {
                Ok(id) => Ok((id, flag)),
                Err(f) => Err(f),
            },
        ),
        AuthRoute::Token(tok) => match jwt_payload(cfg.jwt.hmac_secret, tok) {
            Ok(p) => StepView::CheckClaims(p),
            Err(f) => StepView::Decided(Err(f)),
        },
        AuthRoute::Refuse => StepView::Decided(Err((ErrorKind::Unauthenticated, missing))),
    }
}

/// Why the claims are refused at time `now` (`None` when the clock could
/// not be read), if they are.
pub open spec fn claims_problem(jwt: JwtConfig, c: JwtClaims, now: Option<u64>) -> Option<Fault> {
    if opt_str_view(c.iss) != Some(jwt.issuer@) {
        Some((ErrorKind::Unauthenticated, "invalid jwt issuer"@))
    } else if !audience_accepts(c.aud, jwt.audience@) {
        Some((ErrorKind::Unauthenticated, "invalid jwt audience"@))
    } else {
        match now {
            None => Some((ErrorKind::Internal, "system time error"@)),
            Some(n) => {
                let leeway = jwt.clock_skew_secs;
                if c.nbf matches Some(nbf) && n + leeway < nbf {
                    Some((ErrorKind::Unauthenticated, "jwt not active yet"@))
                } else {
                    match c.exp {
                        Some(exp) => if n > exp + leeway {
                            Some((ErrorKind::Unauthenticated, "jwt expired"@))
                        } else {
                            None
                        },
                        None => Some((ErrorKind::Unauthenticated, "jwt exp missing"@)),
                    }
                }
            },
        }
    }
}

/// The identity valid claims name: the tenant from the configured tenant
/// claim, the client from `client_id` or else `sub`, the subject from `sub`
/// or else the client.
pub open spec fn claims_identity(cfg: AuthConfig, c: JwtClaims) -> Result<Identity, Fault> {
    let tenant = match assoc_lookup(c.extra@, cfg.tenant_claim@, false) {
        Some(v) => claim_text(v),
        None => None,
    };
    match tenant {
        None => Err((ErrorKind::Unauthenticated, "missing tenant claim: "@ + cfg.tenant_claim@)),
        Some(t) => {
            let client = match c.client_id {
                Some(id) => Some(id@),
                None => opt_str_view(c.sub),
            };
            match client {
                None => Err((ErrorKind::Unauthenticated, "missing client identity"@)),
                Some(cl) => Ok((match c.sub { Some(s) => s@, None => cl }, t, cl)),
            }
        },
    }
}

/// What finishing a token's authentication comes to, given its parsed
/// claims (`None` when the payload is not valid claims JSON) and the time.
pub open spec fn finish_spec(cfg: AuthConfig, claims: Option<JwtClaims>, now: Option<u64>) -> Result<(Identity, bool), Fault> {
    match claims {
        None => Err((ErrorKind::Unauthenticated, "invalid jwt claims"@)),
        Some(c) => match claims_problem(cfg.jwt, c, now) {
            Some(f) => Err(f),
            None => match claims_identity(cfg, c) {
                Ok(id) => Ok((id, false)),
                Err(f) => Err(f),
            },
        },
    }
}

/// Why a publisher is refused, if it is.
pub open spec fn api_key_problem(cfg: AuthConfig, headers: Headers) -> Option<Fault> {
    if !cfg.enabled {
        None
    } else if cfg.api_keys@.len() == 0 {
        Some((ErrorKind::Unauthenticated, "publisher api keys are not configured"@))
    } else {
        match headers.lookup("x-api-key"@) {
            None => Some((ErrorKind::Unauthenticated, "missing x-api-key"@)),
            Some(key) => if has_text(cfg.api_keys@, key) {
                None
            } else {
                Some((ErrorKind::PermissionDenied, "invalid api key"@))
            },
        }
    }
}

/// `std::time::SystemTime`, carried opaque between the clock calls.
#[verifier::external_type_specification]
#[verifier::external_body]
pub struct ExSystemTime(std::time::SystemTime);

/// Trusted: `std::time::SystemTime::now`. Nothing is claimed of the time read.
#[verifier::external_body]
fn system_now() -> SystemTime {
    SystemTime::now()
}

/// Trusted: `std::time::SystemTime::duration_since` with `UNIX_EPOCH`;
/// `None` where std reports the time lies before the epoch. Nothing is
/// claimed of the duration.
#[verifier::external_body]
fn since_epoch(t: &SystemTime) -> Option<Duration> {
    t.duration_since(UNIX_EPOCH).ok()
}

/// Trusted: `std::time::Duration::as_secs`. Nothing is claimed of the number.
#[verifier::external_body]
fn whole_seconds(d: &Duration) -> u64 {
    d.as_secs()
}

/// Decides who a request speaks for: by bearer token, or by client header
/// where auth is off or the legacy fallback is on.
#[derive(Debug, Clone)]
pub struct AuthService {
    config: AuthConfig,
}

pub fn legacy_context(client_id: String, legacy_tenant: &str) -> (r: Result<AuthContext, PropellerError>)
    ensures
        match (r, legacy_identity(client_id@, legacy_tenant@)) {
            (Ok(ctx), Ok(id)) => ctx.identity() == id && ctx.scopes@.len() == 0,
            (Err(e), Err(f)) => e@ == f,
            _ => false,
        },
{
    if client_id.as_str().is_empty() {
        return Err(PropellerError::unauthenticated("missing client identity"));
    }
    Ok(AuthContext {
        subject: client_id.clone(),
        tenant_id: String::from_str(legacy_tenant),
        client_id,
        scopes: Vec::new(),
    })
}

impl AuthService {
    pub closed spec fn settings(self) -> AuthConfig {
        self.config
    }

    pub fn new(config: AuthConfig) -> (s: Self)
        ensures
            s.settings() == config,
    {
        Self { config }
    }

    pub fn config(&self) -> (c: &AuthConfig)
        ensures
            *c == self.settings(),
    {
        &self.config
    }

    fn legacy_outcome(&self, headers: &Headers, client_config: &ClientConfig, flag: bool) -> (r: Result<(AuthContext, bool), PropellerError>)
        ensures
            outcome_view(r) == match legacy_identity(header_client(*headers, *client_config), self.settings().legacy_tenant@) {
                Ok(id) => Ok((id, flag)),
                Err(f) => Err::<(Identity, bool), Fault>(f),
            },
            r matches Ok((ctx, _)) ==> ctx.scopes@.len() == 0,
    {
        let client_id = match headers.get(client_config.header.as_str()) {
            Some(v) => v,
            None => String::new(),
        };
        match legacy_context(client_id, self.config.legacy_tenant.as_str()) {
            Ok(ctx) => Ok((ctx, flag)),
            Err(e) => Err(e),
        }
    }

    fn authenticate(&self, headers: &Headers, client_config: &ClientConfig, missing: &str) -> (step: AuthStep)
        ensures
            step_view(step) == authenticate_spec(self.settings(), *headers, *client_config, missing@),
            step matches AuthStep::Decided(Ok((ctx, _))) ==> ctx.scopes@.len() == 0,
    {
        if !self.config.enabled {
            return AuthStep::Decided(self.legacy_outcome(headers, client_config, false));
        }
        match extract_request_bearer(headers) {
            Some(token) => match self.verify_token(token.as_str()) {
                Ok(payload) => AuthStep::CheckClaims(payload),
                Err(e) => AuthStep::Decided(Err(e)),
            },
            None => {
                if self.config.legacy_header_mode {
                    AuthStep::Decided(self.legacy_outcome(headers, client_config, true))
                } else {
                    AuthStep::Decided(Err(PropellerError::unauthenticated(missing)))
                }
            },
        }
    }

    /// Authenticates a WebSocket upgrade request from its HTTP headers.
    pub fn authenticate_http(&self, headers: &Headers, client_config: &ClientConfig) -> (step: AuthStep)
        ensures
            step_view(step) == authenticate_spec(
                self.settings(),
                *headers,
                *client_config,
                "missing Authorization bearer token"@,
            ),
            step matches AuthStep::Decided(Ok((ctx, _))) ==> ctx.scopes@.len() == 0,
    {
        self.authenticate(headers, client_config, "missing Authorization bearer token")
    }

    /// Authenticates a gRPC call from its metadata.
    pub fn authenticate_grpc(&self, metadata: &Headers, client_config: &ClientConfig) -> (step: AuthStep)
        ensures
            step_view(step) == authenticate_spec(
                self.settings(),
                *metadata,
                *client_config,
                "missing authorization bearer token"@,
            ),
            step matches AuthStep::Decided(Ok((ctx, _))) ==> ctx.scopes@.len() == 0,
    {
        self.authenticate(metadata, client_config, "missing authorization bearer token")
    }

    /// Admits a publisher by its `x-api-key`, when auth is on.
    pub fn authorize_api_key_grpc(&self, metadata: &Headers) -> (r: Result<(), PropellerError>)
        ensures
            match api_key_problem(self.settings(), *metadata) {
                None => r is Ok,
                Some(f) => r matches Err(e) && e@ == f,
            },
    {
        if !self.config.enabled {
            return Ok(());
        }
        if self.config.api_keys.len() == 0 {
            return Err(PropellerError::unauthenticated("publisher api keys are not configured"));
        }
        let key = match metadata.get("x-api-key") {
            Some(k) => k,
            None => return Err(PropellerError::unauthenticated("missing x-api-key")),
        };
        let keys = &self.config.api_keys;
        let mut i: usize = 0;
        while i < keys.len()
            invariant
                i <= keys@.len(),
                *keys == self.settings().api_keys,
                self.settings().enabled,
                keys@.len() > 0,
                metadata.lookup("x-api-key"@) == Some(key@),
                forall|j: int| 0 <= j < i ==> (#[trigger] keys@[j])@ != key@,
            decreases keys@.len() - i,
        {
            if keys[i] == key {
                assert(has_text(keys@, key@));
                return Ok(());
            }
            i += 1;
        }
        Err(PropellerError::permission_denied("invalid api key"))
    }

    /// Checks a compact HS256 token's signature against the configured
    /// secret and decodes its payload.
    pub fn verify_token(&self, token: &str) -> (r: Result<Vec<u8>, PropellerError>)
        ensures
            match (r, jwt_payload(self.settings().jwt.hmac_secret, token@)) {
                (Ok(p), Ok(q)) => p@ == q,
                (Err(e), Err(f)) => e@ == f,
                _ => false,
            },
    {
        let secret = match &self.config.jwt.hmac_secret {
            Some(s) => s,
            None => return Err(PropellerError::internal("jwt secret not configured")),
        };
        match hs256_verify(secret.as_str().as_bytes(), token.as_bytes()) {
            Ok(payload) => Ok(payload),
            Err(m) => Err(PropellerError::unauthenticated(m)),
        }
    }

    /// Checks issuer, audience and the validity window of a token's claims
    /// at `now` (seconds since the epoch; `None` when the clock failed).
    pub fn validate_claims(&self, claims: &JwtClaims, now: Option<u64>) -> (r: Result<(), PropellerError>)
        ensures
            match claims_problem(self.settings().jwt, *claims, now) {
                None => r is Ok,
                Some(f) => r matches Err(e) && e@ == f,
            },
    {
        let jwt = &self.config.jwt;
        let iss_ok = match &claims.iss {
            Some(iss) => *iss == jwt.issuer,
            None => false,
        };
        if !iss_ok {
            return Err(PropellerError::unauthenticated("invalid jwt issuer"));
        }
        if !aud_matches(&claims.aud, &jwt.audience) {
            return Err(PropellerError::unauthenticated("invalid jwt audience"));
        }
        let now = match now {
            Some(n) => n,
            None => return Err(PropellerError::internal("system time error")),
        };
        let leeway = jwt.clock_skew_secs;
        if let Some(nbf) = claims.nbf {
            if (now as u128) + (leeway as u128) < (nbf as u128) {
                return Err(PropellerError::unauthenticated("jwt not active yet"));
            }
        }
        match claims.exp {
            Some(exp) => {
                if (now as u128) > (exp as u128) + (leeway as u128) {
                    return Err(PropellerError::unauthenticated("jwt expired"));
                }
            },
            None => return Err(PropellerError::unauthenticated("jwt exp missing")),
        }
        Ok(())
    }

    /// The context valid claims speak for.
    pub fn context_from_claims(&self, claims: JwtClaims) -> (r: Result<AuthContext, PropellerError>)
        ensures
            match (r, claims_identity(self.settings(), claims)) {
                (Ok(ctx), Ok(id)) => ctx.identity() == id && distinct_texts(ctx.scopes@) && forall|w: Seq<char>|
                    has_text(ctx.scopes@, w) <==> scope_granted(claims.scope, claims.scopes, w),
                (Err(e), Err(f)) => e@ == f,
                _ => false,
            },
    {
        let tenant = match assoc_find(&claims.extra, self.config.tenant_claim.as_str(), false) {
            Some(v) => value_to_string(v),
            None => None,
        };
        let tenant_id = match tenant {
            Some(t) => t,
            None => {
                let mut msg = String::from_str("missing tenant claim: ");
                msg.append(self.config.tenant_claim.as_str());
                return Err(PropellerError::Unauthenticated(msg));
            },
        };
        let JwtClaims { sub, client_id, scope, scopes, .. } = claims;
        let client_id = match client_id {
            Some(id) => id,
            None => match &sub {
                Some(s) => s.clone(),
                None => return Err(PropellerError::unauthenticated("missing client identity")),
            },
        };
        let subject = match sub {
            Some(s) => s,
            None => client_id.clone(),
        };
        let scopes = parse_scopes(scope, scopes);
        Ok(AuthContext { subject, tenant_id, client_id, scopes })
    }

    /// Finishes a token's authentication from its parsed claims at time `now`.
    pub fn finish_jwt_at(&self, claims: Option<JwtClaims>, now: Option<u64>) -> (r: Result<(AuthContext, bool), PropellerError>)
        ensures
            outcome_view(r) == finish_spec(self.settings(), claims, now),
            r matches Ok((ctx, _)) ==> claims matches Some(c) && distinct_texts(ctx.scopes@)
                && forall|w: Seq<char>| has_text(ctx.scopes@, w) <==> scope_granted(c.scope, c.scopes, w),
    {
        let claims = match claims {
            Some(c) => c,
            None => return Err(PropellerError::unauthenticated("invalid jwt claims")),
        };
        match self.validate_claims(&claims, now) {
            Ok(()) => {},
            Err(e) => return Err(e),
        }
        match self.context_from_claims(claims) {
            Ok(ctx) => Ok((ctx, false)),
            Err(e) => Err(e),
        }
    }

    /// Finishes a token's authentication from its parsed claims, checking
    /// the validity window against the system clock.
    pub fn finish_jwt(&self, claims: Option<JwtClaims>) -> (r: Result<(AuthContext, bool), PropellerError>)
        ensures
            exists|now: Option<u64>| outcome_view(r) == finish_spec(self.settings(), claims, now),
            r matches Ok((ctx, _)) ==> claims matches Some(c) && distinct_texts(ctx.scopes@)
                && forall|w: Seq<char>| has_text(ctx.scopes@, w) <==> scope_granted(c.scope, c.scopes, w),
    {
        let t = system_now();
        let now = match since_epoch(&t) {
            Some(d) => Some(whole_seconds(&d)),
            None => None,
        };
        self.finish_jwt_at(claims, now)
    }
}

} // verus!
