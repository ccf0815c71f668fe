//! Session helpers: guest scope sanitising, bearer and CSRF checks, cookie
//! attributes.
use vstd::prelude::*;
use crate::text::{chars_of, copy_range, starts_with, str_equal, string_of, window_starts_with};
use crate::text::string_views;

verus! {

/// The only scopes a guest may hold.
pub open spec fn guest_scopes() -> Seq<Seq<char>> {
    seq!["stream:read"@, "system:read"@, "guest:connect"@, "phone:connect"@]
}

pub open spec fn is_guest_scope(s: Seq<char>) -> bool {
    guest_scopes().contains(s)
}

fn allowed_guest_scopes() -> (v: Vec<String>)
    ensures
        string_views(v@) == guest_scopes(),
{
    let mut v: Vec<String> = Vec::new();
    v.push(string_of(chars_of("stream:read").as_slice()));
    v.push(string_of(chars_of("system:read").as_slice()));
    v.push(string_of(chars_of("guest:connect").as_slice()));
    v.push(string_of(chars_of("phone:connect").as_slice()));
    assert(string_views(v@) =~= guest_scopes());
    v
}

fn is_guest_scope_exec(s: &str) -> (b: bool)
    ensures
        b == is_guest_scope(s@),
{
    let b = str_equal(s, "stream:read") || str_equal(s, "system:read") || str_equal(s, "guest:connect")
        || str_equal(s, "phone:connect");
    proof {
        if is_guest_scope(s@) {
            let i = choose|i: int| 0 <= i < guest_scopes().len() && guest_scopes()[i] == s@;
            assert(i == 0 || i == 1 || i == 2 || i == 3);
        }
        if b {
            if s@ == "stream:read"@ { assert(guest_scopes()[0] == s@); }
            if s@ == "system:read"@ { assert(guest_scopes()[1] == s@); }
            if s@ == "guest:connect"@ { assert(guest_scopes()[2] == s@); }
            if s@ == "phone:connect"@ { assert(guest_scopes()[3] == s@); }
        }
    }
    b
}

/// The scopes a guest token receives: the requested ones that are guest
/// scopes, in order; all guest scopes when none is requested or none remains.
pub fn sanitize_guest_scopes(requested: Option<Vec<String>>) -> (r: Vec<String>)
    ensures
        ({
            let kept = match requested {
                Some(req) => string_views(req@).filter(|s: Seq<char>| is_guest_scope(s)),
                None => Seq::empty(),
            };
            if kept.len() == 0 { string_views(r@) == guest_scopes() } else { string_views(r@) == kept }
        }),
        forall|i: int| 0 <= i < r@.len() ==> is_guest_scope(#[trigger] r@[i]@),
{
    match requested {
        None => {
            let v = allowed_guest_scopes();
            assert forall|i: int| 0 <= i < v@.len() implies is_guest_scope(#[trigger] v@[i]@) by {
                assert(string_views(v@)[i] == v@[i]@);
            }
            v
        },
        Some(req) => {
            let mut out: Vec<String> = Vec::new();
            let mut i: usize = 0;
            while i < req.len()
                invariant
                    i <= req@.len(),
                    string_views(out@) == string_views(req@.take(i as int)).filter(|s: Seq<char>| is_guest_scope(s)),
                    forall|j: int| 0 <= j < out@.len() ==> is_guest_scope(#[trigger] out@[j]@),
                decreases req@.len() - i,
            {
                let ghost prev = string_views(req@.take(i as int));
                assert(string_views(req@.take(i + 1)) =~= prev.push(req@[i as int]@));
                proof {
                    reveal_with_fuel(Seq::filter, 1);
                    assert(string_views(req@.take(i + 1)).drop_last() =~= prev);
                }
                if is_guest_scope_exec(req[i].as_str()) {
                    let ghost before = out@;
                    out.push(req[i].clone());
                    assert(string_views(out@) =~= string_views(before).push(req@[i as int]@));
                    assert forall|j: int| 0 <= j < out@.len() implies is_guest_scope(#[trigger] out@[j]@) by {
                        if j < before.len() {
                            assert(out@[j] == before[j]);
                        }
                    }
                }
                i = i + 1;
            }
            assert(req@.take(req@.len() as int) =~= req@);
            if out.len() == 0 {
                let v = allowed_guest_scopes();
                assert forall|k: int| 0 <= k < v@.len() implies is_guest_scope(#[trigger] v@[k]@) by {
                    assert(string_views(v@)[k] == v@[k]@);
                }
                v
            } else {
                out
            }
        },
    }
}

/// The token of an `Authorization: Bearer <token>` header, taken as it is.
pub fn extract_bearer_token(header: Option<&str>) -> (r: Option<String>)
    ensures
        match header {
            None => r is None,
            Some(h) => if starts_with(h@, "Bearer "@) {
                r matches Some(t) && t@ == h@.skip(7)
            } else {
                r is None
            },
        },
{
    proof { reveal_strlit("Bearer "); }
    match header {
        None => None,
        Some(h) => {
            let v = chars_of(h);
            let p = chars_of("Bearer ");
            assert(v@.subrange(0, v@.len() as int) =~= v@);
            if !window_starts_with(v.as_slice(), 0, v.len(), p.as_slice()) {
                return None;
            }
            let t = copy_range(v.as_slice(), 7, v.len());
            assert(t@ =~= v@.skip(7));
            Some(string_of(t.as_slice()))
        },
    }
}

/// The CSRF check: the cookie and the header are both present and equal.
pub fn csrf_header_matches(cookie: Option<&str>, header: Option<&str>) -> (b: bool)
    ensures
        b == (cookie matches Some(c) && header matches Some(h) && c@ == h@),
{
    match (cookie, header) {
        (Some(c), Some(h)) => str_equal(c, h),
        _ => false,
    }
}

/// The attributes of a session-related cookie.
#[derive(Debug, Clone, PartialEq, Eq)]
pub struct CookieSpec {
    pub name: String,
    pub value: String,
    pub path: String,
    pub max_age_seconds: i64,
    pub http_only: bool,
    pub secure: bool,
    pub same_site_lax: bool,
}

/// A cookie at path `/` with the given lifetime, `SameSite=Lax`, secure only
/// when the server is configured so.
pub fn build_cookie(name: &str, token: &str, ttl_seconds: u64, http_only: bool, cookie_secure: Option<bool>) -> (c: CookieSpec)
    ensures
        c.name@ == name@,
        c.value@ == token@,
        c.path@ == "/"@,
        c.max_age_seconds == ttl_seconds as i64,
        c.http_only == http_only,
        c.secure == (cookie_secure == Some(true)),
        c.same_site_lax,
{
    CookieSpec {
        name: string_of(chars_of(name).as_slice()),
        value: string_of(chars_of(token).as_slice()),
        path: string_of(chars_of("/").as_slice()),
        max_age_seconds: ttl_seconds as i64,
        http_only,
        secure: match cookie_secure { Some(true) => true, _ => false },
        same_site_lax: true,
    }
}

/// The session cookie: HTTP-only.
pub fn build_session_cookie(name: &str, token: &str, ttl_seconds: u64, cookie_secure: Option<bool>) -> (c: CookieSpec)
    ensures
        c.http_only,
        c.name@ == name@ && c.value@ == token@ && c.max_age_seconds == ttl_seconds as i64,
        c.secure == (cookie_secure == Some(true)),
{
    build_cookie(name, token, ttl_seconds, true, cookie_secure)
}

/// The refresh cookie: HTTP-only.
pub fn build_refresh_cookie(name: &str, token: &str, ttl_seconds: u64, cookie_secure: Option<bool>) -> (c: CookieSpec)
    ensures
        c.http_only,
        c.name@ == name@ && c.value@ == token@ && c.max_age_seconds == ttl_seconds as i64,
        c.secure == (cookie_secure == Some(true)),
{
    build_cookie(name, token, ttl_seconds, true, cookie_secure)
}

/// The CSRF cookie: readable by scripts, so that they can echo it in a header.
pub fn build_csrf_cookie(name: &str, token: &str, ttl_seconds: u64, cookie_secure: Option<bool>) -> (c: CookieSpec)
    ensures
        !c.http_only,
        c.name@ == name@ && c.value@ == token@ && c.max_age_seconds == ttl_seconds as i64,
        c.secure == (cookie_secure == Some(true)),
{
    build_cookie(name, token, ttl_seconds, false, cookie_secure)
}


/// The three session cookies expired at once (empty, at path `/`, a lifetime
/// of 0, `SameSite=Lax`): session and refresh HTTP-only, CSRF readable.
pub fn cleared_session_cookies(session_name: &str, refresh_name: &str, csrf_name: &str) -> (r: (CookieSpec, CookieSpec, CookieSpec))
    ensures
        r.0.name@ == session_name@ && r.1.name@ == refresh_name@ && r.2.name@ == csrf_name@,
        r.0.value@.len() == 0 && r.1.value@.len() == 0 && r.2.value@.len() == 0,
        r.0.max_age_seconds == 0 && r.1.max_age_seconds == 0 && r.2.max_age_seconds == 0,
        r.0.http_only && r.1.http_only && !r.2.http_only,
        !r.0.secure && !r.1.secure && !r.2.secure,
        r.0.path@ == "/"@ && r.1.path@ == "/"@ && r.2.path@ == "/"@,
        r.0.same_site_lax && r.1.same_site_lax && r.2.same_site_lax,
{
    proof { reveal_strlit(""); }
    (
        build_cookie(session_name, "", 0, true, None),
        build_cookie(refresh_name, "", 0, true, None),
        build_cookie(csrf_name, "", 0, false, None),
    )
}

/// Where a new browser session comes from.
#[derive(Debug, Clone, Copy, PartialEq, Eq, Structural)]
pub enum SessionSource {
    /// A valid bearer token: the session is issued to its subject, role and scopes.
    Bearer,
    /// An admin API key: the session is issued to `api_key` as admin with every scope.
    ApiKey,
}

/// Why a session request is refused.
#[derive(Debug, Clone, Copy, PartialEq, Eq, Structural)]
pub enum SessionRefusal {
    InvalidToken,
    AdminRequired,
    MissingCredentials,
    CsrfMismatch,
    MissingRefreshToken,
}

impl SessionRefusal {
    /// The HTTP status and body of the refusal.
    pub fn answer(&self) -> (r: (u16, &'static str))
        ensures
            r == (match *self {
                SessionRefusal::InvalidToken => (401u16, "Invalid auth token"),
                SessionRefusal::AdminRequired => (403u16, "Admin access required"),
                SessionRefusal::MissingCredentials => (401u16, "Missing auth token or API key"),
                SessionRefusal::CsrfMismatch => (403u16, "CSRF token missing or invalid"),
                SessionRefusal::MissingRefreshToken => (401u16, "Missing refresh token"),
            }),
    {
        match *self {
            SessionRefusal::InvalidToken => (401, "Invalid auth token"),
            SessionRefusal::AdminRequired => (403, "Admin access required"),
            SessionRefusal::MissingCredentials => (401, "Missing auth token or API key"),
            SessionRefusal::CsrfMismatch => (403, "CSRF token missing or invalid"),
            SessionRefusal::MissingRefreshToken => (401, "Missing refresh token"),
        }
    }
}

/// Which credential opens a session: a bearer token wins (and must verify);
/// otherwise the API-key context of the request, which must be an admin's.
pub fn session_source(bearer_present: bool, bearer_valid: bool, context_role: Option<crate::hardware::Role>) -> (r: Result<SessionSource, SessionRefusal>)
    ensures
        bearer_present ==> r == (if bearer_valid { Ok::<SessionSource, SessionRefusal>(SessionSource::Bearer) } else { Err(SessionRefusal::InvalidToken) }),
        !bearer_present ==> r == match context_role {
            None => Err::<SessionSource, SessionRefusal>(SessionRefusal::MissingCredentials),
            Some(role) => if role == crate::hardware::Role::Admin { Ok(SessionSource::ApiKey) } else { Err(SessionRefusal::AdminRequired) },
        },
{
    if bearer_present {
        return if bearer_valid { Ok(SessionSource::Bearer) } else { Err(SessionRefusal::InvalidToken) };
    }
    match context_role {
        None => Err(SessionRefusal::MissingCredentials),
        Some(role) => if role == crate::hardware::Role::Admin { Ok(SessionSource::ApiKey) } else { Err(SessionRefusal::AdminRequired) },
    }
}

/// A refresh needs the CSRF cookie echoed in its header, then the refresh
/// cookie, whose token is returned.
pub fn refresh_admission(csrf_cookie: Option<&str>, csrf_header: Option<&str>, refresh_cookie: Option<&str>) -> (r: Result<String, SessionRefusal>)
    ensures
        !(csrf_cookie matches Some(c) && csrf_header matches Some(h) && c@ == h@) ==> r == Err::<String, SessionRefusal>(SessionRefusal::CsrfMismatch),
        (csrf_cookie matches Some(c) && csrf_header matches Some(h) && c@ == h@) ==> match refresh_cookie {
            None => r == Err::<String, SessionRefusal>(SessionRefusal::MissingRefreshToken),
            Some(t) => r matches Ok(v) && v@ == t@,
        },
{
    if !csrf_header_matches(csrf_cookie, csrf_header) {
        return Err(SessionRefusal::CsrfMismatch);
    }
    match refresh_cookie {
        None => Err(SessionRefusal::MissingRefreshToken),
        Some(t) => Ok(string_of(chars_of(t).as_slice())),
    }
}

/// A token handed to a client, with its lifetimes.
#[derive(Debug, Clone, PartialEq, Eq)]
pub struct TokenResponse {
    pub token: String,
    pub role: crate::hardware::Role,
    pub expires_in_seconds: u64,
    pub refresh_expires_in_seconds: Option<u64>,
}

/// A guest token request, optionally labelled.
#[derive(Debug, Clone, PartialEq, Eq)]
pub struct GuestRequest {
    pub label: Option<String>,
}

/// The subject of a guest token: its label, else `guest`.
pub fn guest_subject(request: &GuestRequest) -> (r: String)
    ensures
        r@ == (match request.label { Some(l) => l@, None => "guest"@ }),
{
    match &request.label {
        Some(l) => l.clone(),
        None => "guest".to_string(),
    }
}

/// The scopes of a guest token: all guest scopes.
pub fn guest_token_scopes() -> (r: Vec<String>)
    ensures
        string_views(r@) == guest_scopes(),
{
    allowed_guest_scopes()
}

/// Starts pairing a device.
#[derive(Debug, Clone, PartialEq, Eq)]
pub struct PairingStartRequest {
    pub label: Option<String>,
    pub scopes: Option<Vec<String>>,
}

/// A pairing code and how long it lasts.
#[derive(Debug, Clone, PartialEq, Eq)]
pub struct PairingStartResponse {
    pub code: String,
    pub expires_in_seconds: u64,
}

/// Claims a pairing code.
#[derive(Debug, Clone, PartialEq, Eq)]
pub struct PairingClaimRequest {
    pub code: String,
}

/// The subject of a paired device: `guest:<label>`, or `guest`.
pub fn pairing_subject(label: Option<&str>) -> (r: String)
    ensures
        r@ == (match label { Some(l) => "guest:"@ + l@, None => "guest"@ }),
{
    match label {
        Some(l) => {
            let mut v: Vec<char> = Vec::new();
            crate::text::push_str(&mut v, "guest:");
            crate::text::push_str(&mut v, l);
            string_of(v.as_slice())
        },
        None => "guest".to_string(),
    }
}

/// Whether the first administrator must still be created.
#[derive(Debug, Clone, Copy, PartialEq, Eq, Structural)]
pub struct BootstrapStatusResponse {
    pub required: bool,
}

/// Bootstrap is required unless the store says otherwise.
pub fn bootstrap_status(stored: Option<bool>) -> (r: BootstrapStatusResponse)
    ensures
        r.required == (match stored { Some(b) => b, None => true }),
{
    BootstrapStatusResponse { required: match stored { Some(b) => b, None => true } }
}

/// Creates the first administrator.
#[derive(Debug, Clone, PartialEq, Eq)]
pub struct BootstrapRequest {
    pub email: String,
    pub name: String,
    pub password: String,
}

/// Why a bootstrap is refused.
#[derive(Debug, Clone, Copy, PartialEq, Eq, Structural)]
pub enum BootstrapRefusal {
    /// "Bootstrap already completed"
    AlreadyCompleted,
    /// "Password must be at least 12 characters"
    PasswordTooShort,
}

/// A bootstrap needs bootstrap to be required and a password of at least 12
/// bytes.
pub fn check_bootstrap(required: bool, request: &BootstrapRequest) -> (r: Result<(), BootstrapRefusal>)
    ensures
        !required ==> r == Err::<(), BootstrapRefusal>(BootstrapRefusal::AlreadyCompleted),
        required && crate::text::utf8_len(request.password@) < 12 ==> r == Err::<(), BootstrapRefusal>(BootstrapRefusal::PasswordTooShort),
        required && crate::text::utf8_len(request.password@) >= 12 ==> r is Ok,
{
    if !required {
        return Err(BootstrapRefusal::AlreadyCompleted);
    }
    let v = chars_of(request.password.as_str());
    if crate::text::utf8_len_at_most(v.as_slice(), 11) {
        return Err(BootstrapRefusal::PasswordTooShort);
    }
    Ok(())
}

/// Signs in with a password.
#[derive(Debug, Clone, PartialEq, Eq)]
pub struct LoginRequest {
    pub email: String,
    pub password: String,
}

/// Users stored with role `Admin` sign in as administrators, all others as
/// guests.
pub fn login_role(stored_role: &str) -> (r: crate::hardware::Role)
    ensures
        r == (if stored_role@ == "Admin"@ { crate::hardware::Role::Admin } else { crate::hardware::Role::Guest }),
{
    if str_equal(stored_role, "Admin") {
        crate::hardware::Role::Admin
    } else {
        crate::hardware::Role::Guest
    }
}

/// Creates a long-lived API token.
#[derive(Debug, Clone, PartialEq, Eq)]
pub struct ApiTokenRequest {
    pub name: String,
    pub scopes: Option<Vec<String>>,
    pub expires_in_seconds: Option<u64>,
}

/// A created API token; its secret is shown this once.
#[derive(Debug, Clone, PartialEq, Eq)]
pub struct ApiTokenResponse {
    pub token: String,
    pub token_id: String,
    pub name: String,
    pub expires_at: Option<i64>,
    pub scopes: Vec<String>,
}

/// An API token as listed.
#[derive(Debug, Clone, PartialEq, Eq)]
pub struct ApiTokenSummary {
    pub token_id: String,
    pub name: String,
    pub scopes: Vec<String>,
    pub created_at: i64,
    pub expires_at: Option<i64>,
    pub last_used: Option<i64>,
    pub revoked: bool,
}

/// API keys cannot mint further tokens.
pub fn may_mint_tokens(actor: &str) -> (r: bool)
    ensures
        r == (actor@ != "api_key"@),
{
    !str_equal(actor, "api_key")
}

/// The scopes of a new API token: those requested, else `*`.
pub fn api_token_scopes(request: &ApiTokenRequest) -> (r: Vec<String>)
    ensures
        match request.scopes {
            Some(v) => r@ == v@,
            None => string_views(r@) == seq!["*"@],
        },
{
    match &request.scopes {
        Some(v) => v.clone(),
        None => {
            let r = vec!["*".to_string()];
            assert(string_views(r@) =~= seq!["*"@]);
            r
        },
    }
}

/// When a new API token expires: `now` plus its lifetime, if it has one.
pub fn api_token_expiry(expires_in_seconds: Option<u64>, now: i64) -> (r: Option<i64>)
    requires
        expires_in_seconds matches Some(t) ==> i64::MIN <= now + (t as i64) <= i64::MAX,
    ensures
        r == (match expires_in_seconds { Some(t) => Some((now + (t as i64)) as i64), None => None }),
{
    match expires_in_seconds {
        Some(t) => Some(now + (t as i64)),
        None => None,
    }
}
} // verus!
