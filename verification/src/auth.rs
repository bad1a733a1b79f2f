//! Authentication: login credentials, signed session tokens, the session cookie,
//! and the access rules that the middleware applies to every request.

use vstd::prelude::*;
use vstd::string::*;
use crate::config::{get, ConfigStore};
use crate::error::AppError;
use crate::text::{is_whitespace_spec, lemma_trim_of_trimmed_text, same_text, trim_spec};

verus! {

// ---------------------------------------------------------------------------
// Credentials
// ---------------------------------------------------------------------------

/// An e-mail address and a password.
#[derive(Clone)]
pub struct Credentials {
    email: String,
    password: String,
}

impl View for Credentials {
    type V = (Seq<char>, Seq<char>);

    /// The e-mail address and the password.
    closed spec fn view(&self) -> (Seq<char>, Seq<char>) {
        (self.email@, self.password@)
    }
}

impl Credentials {
    /// Credentials made of `email` and `password`.
    pub fn new(email: String, password: String) -> (r: Self)
        ensures
            r@ == (email@, password@),
    {
        Self { email, password }
    }

    /// Whether both the e-mail address and the password are the same.
    pub fn matches(&self, other: &Credentials) -> (r: bool)
        ensures
            r == credentials_match(*self, *other),
    {
        self.email == other.email && self.password == other.password
    }

    /// A copy of these credentials.
    pub(crate) fn duplicate(&self) -> (r: Credentials)
        ensures
            r@ == self@,
    {
        Credentials { email: self.email.clone(), password: self.password.clone() }
    }
}

/// What `Credentials::matches` decides: the e-mail addresses are the same and the
/// passwords are the same.
pub open spec fn credentials_match(a: Credentials, b: Credentials) -> bool {
    a@.0 == b@.0 && a@.1 == b@.1
}

/// Matching credentials is an equivalence: every credential matches itself, matching
/// is symmetric, and it chains. Two credentials match exactly when their views are
/// equal.
pub proof fn lemma_matches_is_equivalence(a: Credentials, b: Credentials, c: Credentials)
    ensures
        credentials_match(a, a),
        credentials_match(a, b) == credentials_match(b, a),
        credentials_match(a, b) && credentials_match(b, c) ==> credentials_match(a, c),
        credentials_match(a, b) == (a@ == b@),
{
}

// ---------------------------------------------------------------------------
// Session tokens
// ---------------------------------------------------------------------------

/// What a session token asserts: whom it was issued to, and until when (seconds since
/// the Unix epoch) it is valid.
struct Claims {
    sub: String,
    exp: usize,
}

#[verifier::external_type_specification]
#[verifier::external_body]
pub struct ExJwtError(jsonwebtoken::errors::Error);

/// The token that `jsonwebtoken::encode` makes, with the default header (algorithm
/// HS256), of the claims `{"sub": sub, "exp": exp}` (in that order), signed with the
/// bytes of `secret`.
pub uninterp spec fn jwt_hs256_token(sub: Seq<char>, exp: usize, secret: Seq<char>) -> Seq<char>;

/// Signs the claims with `jsonwebtoken::encode` under the default header (HS256) and
/// an HMAC key made from the bytes of `secret`. Trusted: for these arguments encode
/// succeeds (the key family matches the algorithm, HMAC accepts keys of any length and
/// the claims serialise), the token is the named result of the claims and secret, and
/// `jsonwebtoken::decode` with the same secret and the expiry check switched off gives
/// the claims back (header `{"typ":"JWT","alg":"HS256"}`, a signature that verifies,
/// `exp` present as an unsigned integer, no `aud`).
#[verifier::external_body]
fn encode_hs256(claims: &Claims, secret: &str) -> (r: Result<String, jsonwebtoken::errors::Error>)
    ensures
        r is Ok,
        r matches Ok(token) ==> token@ == jwt_hs256_token(claims.sub@, claims.exp, secret@),
        r matches Ok(token) ==> jwt_hs256_decoded(token@, secret@) == Some(
            (claims.sub@, claims.exp as u64),
        ),
{
    let mut fields = serde_json::Map::new();
    fields.insert("sub".to_string(), serde_json::Value::from(claims.sub.clone()));
    fields.insert("exp".to_string(), serde_json::Value::from(claims.exp));
    jsonwebtoken::encode(
        &jsonwebtoken::Header::default(),
        &fields,
        &jsonwebtoken::EncodingKey::from_secret(secret.as_bytes()),
    )
}

/// What `jsonwebtoken::decode` yields for `token` under the default validation (HS256
/// signature with an HMAC key made from the bytes of `secret`, an `exp` claim required)
/// but with the expiry check against the clock switched off: the token's `sub` text and
/// unsigned integer `exp` when it decodes and its claims carry both, `None` otherwise.
pub uninterp spec fn jwt_hs256_decoded(token: Seq<char>, secret: Seq<char>) -> Option<(Seq<char>, u64)>;

/// Decodes `token` with `jsonwebtoken::decode` under the default validation (HS256
/// signature with an HMAC key made from the bytes of `secret`, an `exp` claim
/// required) with its expiry check switched off, reading the claims as a JSON object
/// and keeping its `sub` text and its unsigned integer `exp`. Trusted: the result is
/// the named one.
#[verifier::external_body]
fn decode_hs256(token: &str, secret: &str) -> (r: Option<(String, u64)>)
    ensures
        r matches Some(c) ==> jwt_hs256_decoded(token@, secret@) == Some((c.0@, c.1)),
        r is None ==> jwt_hs256_decoded(token@, secret@) is None,
{
    let mut validation = jsonwebtoken::Validation::default();
    validation.validate_exp = false;
    match jsonwebtoken::decode::<serde_json::Map<String, serde_json::Value>>(
        token,
        &jsonwebtoken::DecodingKey::from_secret(secret.as_bytes()),
        &validation,
    ) {
        Ok(data) => match (data.claims.get("sub"), data.claims.get("exp")) {
            (Some(serde_json::Value::String(sub)), Some(serde_json::Value::Number(exp))) => {
                exp.as_u64().map(|exp| (sub.clone(), exp))
            },
            _ => None,
        },
        Err(_) => None,
    }
}

/// The current time as jsonwebtoken reads it to check expiry, with
/// `jsonwebtoken::get_current_timestamp` (whole seconds since the Unix epoch). Nothing
/// is stated of it: it depends on the clock (the call panics where the clock reads a
/// time before the epoch).
#[verifier::external_body]
fn jwt_current_timestamp() -> (r: u64) {
    jsonwebtoken::get_current_timestamp()
}

/// The leeway, in seconds, that jsonwebtoken's default validation grants an expired
/// token.
pub const JWT_LEEWAY_SECONDS: u64 = 60;

/// `token` is accepted under `secret` when the clock reads `now`: it decodes, and its
/// expiry is not more than the leeway before `now` (jsonwebtoken's default rule:
/// refused where `exp < now - leeway`).
pub open spec fn jwt_valid_at(token: Seq<char>, secret: Seq<char>, now: int) -> bool {
    match jwt_hs256_decoded(token, secret) {
        Some((_, exp)) => exp + JWT_LEEWAY_SECONDS >= now,
        None => false,
    }
}

/// The earliest Unix timestamp chrono's `DateTime<Utc>` can hold (-262143-01-01T00:00:00).
pub const CHRONO_MIN_TIMESTAMP: i64 = -8334601315200;

/// The latest whole-second Unix timestamp chrono's `DateTime<Utc>` can hold
/// (262142-12-31T23:59:59).
pub const CHRONO_MAX_TIMESTAMP: i64 = 8210266876799;

/// The current time as a Unix timestamp in whole seconds, read from the system clock
/// with `chrono::Utc::now`. Trusted: it is not negative, because `Utc::now` (on the
/// targets this crate builds for) panics where the clock reads a time before the Unix
/// epoch, and it lies in chrono's range. Which time it is depends on the clock and is
/// not stated; the pre-epoch panic cannot be ruled out by a precondition.
#[verifier::external_body]
pub(crate) fn utc_now_timestamp() -> (r: i64)
    ensures
        0 <= r <= CHRONO_MAX_TIMESTAMP,
{
    chrono::Utc::now().timestamp()
}

/// The Unix timestamp `days` whole days after `timestamp`, computed with chrono's
/// `DateTime::from_timestamp` and `checked_add_signed(Duration::days(days))`. Trusted:
/// the result is `timestamp + days * 86400`, and it is `None` exactly where that lies
/// beyond chrono's last second.
#[verifier::external_body]
fn timestamp_plus_days(timestamp: i64, days: i64) -> (r: Option<i64>)
    requires
        CHRONO_MIN_TIMESTAMP <= timestamp <= CHRONO_MAX_TIMESTAMP,
        0 <= days <= 1_000_000,
    ensures
        r matches Some(t) ==> t == timestamp + days * 86400,
        r is Some <==> timestamp + days * 86400 <= CHRONO_MAX_TIMESTAMP,
{
    match chrono::DateTime::from_timestamp(timestamp, 0) {
        Some(t) => match t.checked_add_signed(chrono::Duration::days(days)) {
            Some(later) => Some(later.timestamp()),
            None => None,
        },
        None => None,
    }
}

/// The number of days a session token stays valid.
pub const TOKEN_VALID_DAYS: i64 = 31;

/// The secret that signs session tokens.
pub fn jwt_secret(store: &ConfigStore) -> (r: String)
    requires
        store@ is Some,
    ensures
        r@ == store@->0.jwt_secret@,
{
    get(store).jwt_secret.clone()
}

/// A session token for `email` that expires at `expiration`, signed with `secret`; it
/// decodes under `secret` to `email` and `expiration`.
pub fn create_jwt_expiring_at(email: &str, secret: &str, expiration: usize) -> (r: Result<
    String,
    AppError,
>)
    ensures
        r matches Ok(token) && token@ == jwt_hs256_token(email@, expiration, secret@)
            && jwt_hs256_decoded(token@, secret@) == Some((email@, expiration as u64)),
{
    let claims = Claims { sub: String::from_str(email), exp: expiration };
    match encode_hs256(&claims, secret) {
        Ok(token) => Ok(token),
        Err(_) => Err(AppError::Unauthorized),
    }
}

/// The expiry of a token issued when the clock reads `now`: 31 days later.
pub open spec fn jwt_expiry(now: int) -> int {
    now + TOKEN_VALID_DAYS * 86400
}

/// `r` is what issuing a token for `email` under `secret` gives when the clock reads
/// `now`: the token that expires 31 days later, which decodes to `email` and that expiry,
/// or `ClockOutOfRange` exactly where that expiry lies beyond chrono's last second.
pub open spec fn jwt_issued_at(r: Result<String, AppError>, email: Seq<char>, secret: Seq<char>, now: int) -> bool {
    match r {
        Ok(token) => {
            &&& jwt_expiry(now) <= CHRONO_MAX_TIMESTAMP
            &&& token@ == jwt_hs256_token(email, jwt_expiry(now) as usize, secret)
            &&& jwt_hs256_decoded(token@, secret) == Some((email, (jwt_expiry(now) as usize) as u64))
        },
        Err(e) => e == AppError::ClockOutOfRange && jwt_expiry(now) > CHRONO_MAX_TIMESTAMP,
    }
}

/// The session token for `email` issued when the clock reads `now`: valid for 31 days
/// from `now`, signed with the configured secret. Fails exactly where that expiry lies
/// beyond chrono's last second.
pub fn create_jwt_at(store: &ConfigStore, email: &str, now: i64) -> (r: Result<String, AppError>)
    requires
        store@ is Some,
        0 <= now <= CHRONO_MAX_TIMESTAMP,
    ensures
        jwt_issued_at(r, email@, store@->0.jwt_secret@, now as int),
{
    let secret = jwt_secret(store);
    match timestamp_plus_days(now, TOKEN_VALID_DAYS) {
        Some(expiration) => {
            #[verifier::truncate]
            let exp = expiration as usize;
            create_jwt_expiring_at(email, secret.as_str(), exp)
        },
        None => Err(AppError::ClockOutOfRange),
    }
}

/// A session token for `email`, valid for 31 days from now, signed with the
/// configured secret: `create_jwt_at` at the current reading of chrono's clock.
pub fn create_jwt(store: &ConfigStore, email: &str) -> (r: Result<String, AppError>)
    requires
        store@ is Some,
    ensures
        exists|now: int|
            0 <= now <= CHRONO_MAX_TIMESTAMP && #[trigger] jwt_issued_at(
                r,
                email@,
                store@->0.jwt_secret@,
                now,
            ),
{
    let now = utc_now_timestamp();
    create_jwt_at(store, email, now)
}

/// Whether `token` is a session token signed with `secret` that has not expired when
/// the clock reads `now`.
pub fn validate_jwt_at(token: &str, secret: &str, now: u64) -> (r: bool)
    ensures
        r == jwt_valid_at(token@, secret@, now as int),
{
    match decode_hs256(token, secret) {
        Some((_, exp)) => now <= JWT_LEEWAY_SECONDS || exp >= now - JWT_LEEWAY_SECONDS,
        None => false,
    }
}

/// Whether `token` is a session token signed with `secret` that has not expired, by
/// the clock as jsonwebtoken reads it.
pub fn validate_jwt(token: &str, secret: &str) -> (r: bool)
    ensures
        exists|now: int| 0 <= now && r == #[trigger] jwt_valid_at(token@, secret@, now),
        r ==> jwt_hs256_decoded(token@, secret@) is Some,
{
    let now = jwt_current_timestamp();
    validate_jwt_at(token, secret, now)
}

/// A token issued when the clock read `issued` is accepted at every reading up to its
/// expiry (31 days on) plus the leeway, and refused after that.
pub proof fn lemma_issued_token_validates_until_expiry(
    r: Result<String, AppError>,
    email: Seq<char>,
    secret: Seq<char>,
    issued: int,
    now: int,
)
    requires
        jwt_issued_at(r, email, secret, issued),
        r is Ok,
        0 <= jwt_expiry(issued) <= usize::MAX,
    ensures
        now <= jwt_expiry(issued) + JWT_LEEWAY_SECONDS ==> jwt_valid_at(
            r->Ok_0@,
            secret,
            now,
        ),
        now > jwt_expiry(issued) + JWT_LEEWAY_SECONDS ==> !jwt_valid_at(r->Ok_0@, secret, now),
{
}

/// Checks `candidate` against the configured `target` credentials and, when they
/// match, issues the session token for the target's e-mail address that the clock
/// reading `now` gives.
pub fn verify_credentials_at(
    store: &ConfigStore,
    target: Credentials,
    candidate: Credentials,
    now: i64,
) -> (r: Result<String, AppError>)
    requires
        credentials_match(target, candidate) ==> store@ is Some && 0 <= now
            <= CHRONO_MAX_TIMESTAMP,
    ensures
        !credentials_match(target, candidate) ==> r == Err::<String, AppError>(
            AppError::Unauthorized,
        ),
        credentials_match(target, candidate) ==> jwt_issued_at(
            r,
            target@.0,
            store@->0.jwt_secret@,
            now as int,
        ),
{
    if target.matches(&candidate) {
        create_jwt_at(store, target.email.as_str(), now)
    } else {
        Err(AppError::Unauthorized)
    }
}

/// Checks `candidate` against the configured `target` credentials and, when they
/// match, issues a session token for the target's e-mail address. The configuration
/// and the clock are read only when they match.
pub fn verify_credentials(store: &ConfigStore, target: Credentials, candidate: Credentials) -> (r:
    Result<String, AppError>)
    requires
        credentials_match(target, candidate) ==> store@ is Some,
    ensures
        !credentials_match(target, candidate) ==> r == Err::<String, AppError>(
            AppError::Unauthorized,
        ),
        credentials_match(target, candidate) ==> exists|now: int|
            0 <= now <= CHRONO_MAX_TIMESTAMP && #[trigger] jwt_issued_at(
                r,
                target@.0,
                store@->0.jwt_secret@,
                now,
            ),
{
    if target.matches(&candidate) {
        create_jwt(store, target.email.as_str())
    } else {
        Err(AppError::Unauthorized)
    }
}

// ---------------------------------------------------------------------------
// Cookies
// ---------------------------------------------------------------------------

/// `s` cut at every `sep` into the parts between them (one part when `sep` does not
/// occur; empty parts where separators meet or stand at an end).
pub open spec fn split_parts(s: Seq<char>, sep: char) -> Seq<Seq<char>>
    decreases s.len(),
{
    if s.len() == 0 {
        seq![Seq::empty()]
    } else {
        let rest = split_parts(s.drop_first(), sep);
        if s[0] == sep {
            seq![Seq::<char>::empty()] + rest
        } else {
            rest.update(0, seq![s[0]] + rest[0])
        }
    }
}

/// The index of the first `c` in `s`, if any.
pub open spec fn first_index_of(s: Seq<char>, c: char) -> Option<int>
    decreases s.len(),
{
    if s.len() == 0 {
        None
    } else if s[0] == c {
        Some(0)
    } else {
        match first_index_of(s.drop_first(), c) {
            Some(i) => Some(i + 1),
            None => None,
        }
    }
}

/// Every character of `s` is whitespace (so also the empty text).
pub open spec fn is_blank(s: Seq<char>) -> bool {
    forall|i: int| 0 <= i < s.len() ==> is_whitespace_spec(#[trigger] s[i])
}

/// How the `cookie` crate parses one part of a `Cookie` header: the part is trimmed
/// and cut at its first `=`; the name before it and the value after it are trimmed;
/// a part without `=`, or with an empty name, does not parse.
pub open spec fn parse_cookie_part(part: Seq<char>) -> Option<(Seq<char>, Seq<char>)> {
    let t = trim_spec(part);
    match first_index_of(t, '=') {
        None => None,
        Some(i) => {
            let name = trim_spec(t.subrange(0, i));
            if name.len() == 0 {
                None
            } else {
                Some((name, trim_spec(t.subrange(i + 1, t.len() as int))))
            }
        },
    }
}

/// What `cookie::Cookie::split_parse` yields for a `Cookie` header value: the header
/// cut at every `;`, blank parts skipped, and each remaining part parsed, in order.
pub open spec fn cookie_split_parse(header: Seq<char>) -> Seq<Option<(Seq<char>, Seq<char>)>> {
    split_parts(header, ';').filter(|p: Seq<char>| !is_blank(p)).map_values(
        |p: Seq<char>| parse_cookie_part(p),
    )
}

/// Splits a `Cookie` header value into cookies with `cookie::Cookie::split_parse`,
/// keeping each cookie's name and value (unparsed parts as `None`). Trusted: the result
/// is what `cookie_split_parse` states, which follows the crate's `SplitCookies`
/// iterator and its `parse_inner` without decoding.
#[verifier::external_body]
fn split_parse_cookies(header: &str) -> (r: Vec<Option<(String, String)>>)
    ensures
        r.deep_view() == cookie_split_parse(header@),
{
    cookie::Cookie::split_parse(header).map(
        |c| c.ok().map(|c| (c.name().to_string(), c.value().to_string())),
    ).collect()
}

/// The value of the first cookie called `name` among those that parsed.
pub open spec fn first_cookie_value(cookies: Seq<Option<(Seq<char>, Seq<char>)>>, name: Seq<char>) -> Option<
    Seq<char>,
>
    decreases cookies.len(),
{
    if cookies.len() == 0 {
        None
    } else {
        match cookies[0] {
            Some((n, v)) if n == name => Some(v),
            _ => first_cookie_value(cookies.drop_first(), name),
        }
    }
}

/// The value of the first cookie called `name` among those that parsed.
pub fn find_cookie(cookies: &Vec<Option<(String, String)>>, name: &str) -> (r: Option<String>)
    ensures
        r.deep_view() == first_cookie_value(cookies.deep_view(), name@),
{
    let wanted = String::from_str(name);
    let n = cookies.len();
    let ghost all = cookies.deep_view();
    let mut i: usize = 0;
    assert(all.subrange(0, n as int) =~= all);
    while i < n
        invariant
            n == cookies.len(),
            all == cookies.deep_view(),
            i <= n,
            wanted@ == name@,
            first_cookie_value(all, name@) == first_cookie_value(
                all.subrange(i as int, n as int),
                name@,
            ),
        decreases n - i,
    {
        let ghost rest = all.subrange(i as int, n as int);
        assert(rest[0] == all[i as int]);
        assert(rest.drop_first() =~= all.subrange(i + 1, n as int));
        match &cookies[i] {
            Some(pair) => {
                if pair.0 == wanted {
                    return Some(pair.1.clone());
                }
            },
            None => {},
        }
        i = i + 1;
    }
    None
}

/// The value of the `auth_token` cookie carried by a `Cookie` header, if any.
pub open spec fn auth_token_in(cookie_header: Option<Seq<char>>) -> Option<Seq<char>> {
    match cookie_header {
        Some(h) => first_cookie_value(cookie_split_parse(h), "auth_token"@),
        None => None,
    }
}

/// The `auth_token` cookie carried by a `Cookie` header, if any.
pub fn session_token(cookie_header: Option<&str>) -> (r: Option<String>)
    ensures
        r.deep_view() == auth_token_in(
            match cookie_header {
                Some(h) => Some(h@),
                None => None,
            },
        ),
{
    match cookie_header {
        Some(h) => find_cookie(&split_parse_cookies(h), "auth_token"),
        None => None,
    }
}

proof fn lemma_split_without_separator(s: Seq<char>, sep: char)
    requires
        forall|k: int| 0 <= k < s.len() ==> s[k] != sep,
    ensures
        split_parts(s, sep) == seq![s],
    decreases s.len(),
{
    if s.len() > 0 {
        let rest = split_parts(s.drop_first(), sep);
        lemma_split_without_separator(s.drop_first(), sep);
        assert(s[0] != sep);
        assert(rest[0] == s.drop_first());
        assert(seq![s[0]] + s.drop_first() =~= s);
        assert(split_parts(s, sep) == rest.update(0, seq![s[0]] + rest[0]));
        assert(split_parts(s, sep) =~= seq![s]);
    } else {
        assert(s =~= Seq::<char>::empty());
    }
}

proof fn lemma_first_index_after(a: Seq<char>, b: Seq<char>, c: char)
    requires
        forall|k: int| 0 <= k < a.len() ==> a[k] != c,
        b.len() > 0,
        b[0] == c,
    ensures
        first_index_of(a + b, c) == Some(a.len() as int),
    decreases a.len(),
{
    if a.len() == 0 {
        assert(a + b =~= b);
    } else {
        lemma_first_index_after(a.drop_first(), b, c);
        assert((a + b).drop_first() =~= a.drop_first() + b);
    }
}

/// A `Cookie` header that holds just `auth_token=<token>` (as a browser sends back the
/// session cookie) carries exactly that token, where the token holds no `;` and neither
/// starts nor ends with whitespace. On every page but the health check and the login
/// page, the request then proceeds exactly where the token is valid at the clock reading,
/// and is sent to the login page with the cookie dropped otherwise.
pub proof fn lemma_session_cookie_is_read_back(
    token: Seq<char>,
    path: Seq<char>,
    secret: Seq<char>,
    now: int,
)
    requires
        forall|k: int| 0 <= k < token.len() ==> token[k] != ';',
        token.len() > 0 ==> !is_whitespace_spec(token[0]) && !is_whitespace_spec(token.last()),
    ensures
        auth_token_in(Some("auth_token="@ + token)) == Some(token),
        path != "/health"@ && path != "/login"@ ==> access_rule(
            path,
            session_state(auth_token_in(Some("auth_token="@ + token)), secret, now),
        ) == if jwt_valid_at(token, secret, now) {
            AuthAction::Proceed
        } else {
            AuthAction::RedirectToLoginClearingCookie
        },
{
    reveal_strlit("auth_token=");
    reveal_strlit("auth_token");
    reveal_strlit("=");
    let name = "auth_token"@;
    let h = "auth_token="@ + token;
    assert(h.len() == 11 + token.len());
    assert forall|k: int| 0 <= k < h.len() implies h[k] != ';' by {
        if k >= 11 {
            assert(h[k] == token[k - 11]);
        }
    }
    lemma_split_without_separator(h, ';');
    let pred = |p: Seq<char>| !is_blank(p);
    assert(!is_whitespace_spec(h[0]));
    assert(pred(h));
    let one = seq![h];
    assert(one.drop_last() =~= Seq::<Seq<char>>::empty());
    assert(one.last() == h);
    assert(one.filter(pred) == one) by {
        reveal(Seq::filter);
        assert(Seq::<Seq<char>>::empty().filter(pred) =~= Seq::<Seq<char>>::empty());
        assert(Seq::<Seq<char>>::empty().push(h) =~= one);
    }
    assert(cookie_split_parse(h) =~= seq![parse_cookie_part(h)]);
    // the header is already trimmed
    if token.len() > 0 {
        assert(h.last() == token.last());
    }
    lemma_trim_of_trimmed_text(h);
    assert(trim_spec(h) == h);
    // its first `=` follows the name
    let rest = "="@ + token;
    assert(h =~= name + rest);
    lemma_first_index_after(name, rest, '=');
    assert(first_index_of(h, '=') == Some(10int));
    assert(h.subrange(0, 10) =~= name);
    lemma_trim_of_trimmed_text(name);
    assert(h.subrange(11, h.len() as int) =~= token);
    lemma_trim_of_trimmed_text(token);
    assert(parse_cookie_part(h) == Some((name, token)));
    let cookies = seq![Some((name, token))];
    assert(cookie_split_parse(h) =~= cookies);
    assert(first_cookie_value(cookies, name) == Some(token));
}

/// The text of `cookie::CookieBuilder`'s `Display` up to the expiry date, for a cookie
/// with the given name, value, flags and path and with an expiry date set.
pub open spec fn set_cookie_prefix(
    name: Seq<char>,
    value: Seq<char>,
    http_only: bool,
    secure: bool,
    path: Seq<char>,
) -> Seq<char> {
    name + "="@ + value + (if http_only {
        "; HttpOnly"@
    } else {
        Seq::empty()
    }) + (if secure {
        "; Secure"@
    } else {
        Seq::empty()
    }) + "; Path="@ + path + "; Expires="@
}

/// The earliest Unix timestamp the `time` crate can hold (-9999-01-01T00:00:00).
pub const TIME_MIN_TIMESTAMP: i64 = -377705203200;

/// The latest whole-second Unix timestamp the `time` crate can hold
/// (9999-12-31T23:59:59).
pub const TIME_MAX_TIMESTAMP: i64 = 253402300799;

/// The `Set-Cookie` text that `cookie::CookieBuilder`'s `Display` writes for a cookie
/// with the given name, value, flags and path that expires at the Unix timestamp
/// `expires`.
pub uninterp spec fn cookie_text(
    name: Seq<char>,
    value: Seq<char>,
    http_only: bool,
    secure: bool,
    path: Seq<char>,
    expires: i64,
) -> Seq<char>;

/// A `Set-Cookie` value made with `cookie::Cookie::build` from the name, value, flags
/// and path, expiring at the Unix timestamp `expires`, rendered with `Display`.
/// Trusted: the text is the named one, and it starts with the name, value, flags and
/// path as `Display` writes them (`fmt_parameters`), the date following `Expires=`.
#[verifier::external_body]
fn build_cookie(name: &str, value: &str, http_only: bool, secure: bool, path: &str, expires: i64) -> (r:
    String)
    requires
        TIME_MIN_TIMESTAMP <= expires <= TIME_MAX_TIMESTAMP,
    ensures
        r@ == cookie_text(name@, value@, http_only, secure, path@, expires),
        r@.len() >= set_cookie_prefix(name@, value@, http_only, secure, path@).len(),
        r@.subrange(0, set_cookie_prefix(name@, value@, http_only, secure, path@).len() as int)
            == set_cookie_prefix(name@, value@, http_only, secure, path@),
{
    cookie::Cookie::build((name.to_string(), value.to_string()))
        .http_only(http_only)
        .secure(secure)
        .expires(cookie::time::OffsetDateTime::from_unix_timestamp(expires).unwrap())
        .path(path.to_string())
        .to_string()
}

/// The current time as a Unix timestamp in whole seconds, read from the system clock
/// with `time::OffsetDateTime::now_utc`. Trusted: it lies in `time`'s range (the
/// conversion from the system time adds the offset from the epoch to
/// `OffsetDateTime::UNIX_EPOCH`, which panics outside that range; no crate here enables
/// `time`'s `large-dates`). Which time it is depends on the clock and is not stated.
#[verifier::external_body]
pub(crate) fn offset_now_timestamp() -> (r: i64)
    ensures
        TIME_MIN_TIMESTAMP <= r <= TIME_MAX_TIMESTAMP,
{
    cookie::time::OffsetDateTime::now_utc().unix_timestamp()
}

/// The number of days the session cookie is kept by the browser.
pub const SESSION_COOKIE_DAYS: i64 = 30;

/// `cookie` is a `Set-Cookie` value that hands `token` to the browser as the
/// `auth_token` cookie, HttpOnly, Secure, with path `/` and an expiry date.
pub open spec fn carries_session(cookie: Seq<char>, token: Seq<char>) -> bool {
    let prefix = set_cookie_prefix("auth_token"@, token, true, true, "/"@);
    &&& cookie.len() >= prefix.len()
    &&& cookie.subrange(0, prefix.len() as int) == prefix
}

/// The expiry of a session cookie handed out when the clock reads `now`: 30 days later.
pub open spec fn cookie_expiry(now: int) -> int {
    now + SESSION_COOKIE_DAYS * 86400
}

/// `r` is the session cookie for `token` handed out when the clock reads `now`: the
/// `auth_token` cookie, HttpOnly, Secure, path `/`, expiring 30 days later; `None`
/// exactly where that reading or that expiry lies outside the `time` crate's range.
pub open spec fn session_cookie_at(r: Option<String>, token: Seq<char>, now: int) -> bool {
    match r {
        Some(c) => {
            &&& TIME_MIN_TIMESTAMP <= now
            &&& cookie_expiry(now) <= TIME_MAX_TIMESTAMP
            &&& c@ == cookie_text("auth_token"@, token, true, true, "/"@, cookie_expiry(now) as i64)
            &&& carries_session(c@, token)
        },
        None => now < TIME_MIN_TIMESTAMP || cookie_expiry(now) > TIME_MAX_TIMESTAMP,
    }
}

/// The `Set-Cookie` value that hands `token` to the browser when the clock reads
/// `now`: cookie `auth_token`, HttpOnly, Secure, path `/`, expiring 30 days later.
pub fn session_cookie_at_time(token: &str, now: i64) -> (r: Option<String>)
    ensures
        session_cookie_at(r, token@, now as int),
{
    if TIME_MIN_TIMESTAMP <= now && now <= TIME_MAX_TIMESTAMP - SESSION_COOKIE_DAYS * 86400 {
        Some(build_cookie("auth_token", token, true, true, "/", now + SESSION_COOKIE_DAYS * 86400))
    } else {
        None
    }
}

/// The `Set-Cookie` value that hands `token` to the browser: `session_cookie_at_time`
/// at the current reading of the `time` crate's clock.
pub fn session_cookie(token: &str) -> (r: Option<String>)
    ensures
        exists|now: int|
            TIME_MIN_TIMESTAMP <= now <= TIME_MAX_TIMESTAMP && #[trigger] session_cookie_at(
                r,
                token@,
                now,
            ),
{
    let now = offset_now_timestamp();
    session_cookie_at_time(token, now)
}

// ---------------------------------------------------------------------------
// Redirects
// ---------------------------------------------------------------------------

/// The HTTP status `303 See Other`.
pub const SEE_OTHER: u16 = 303;

/// A header line of a response.
pub struct ResponseHeader {
    pub name: String,
    pub value: String,
}

/// A response without a body: a status and its headers.
pub struct RedirectResponse {
    pub status: u16,
    pub headers: Vec<ResponseHeader>,
}

/// The header lines as pairs of name and value.
pub open spec fn header_lines(headers: Seq<ResponseHeader>) -> Seq<(Seq<char>, Seq<char>)> {
    headers.map_values(|h: ResponseHeader| (h.name@, h.value@))
}

/// The characters an HTTP header value may hold, as `http::HeaderValue` accepts them:
/// a tab or any character from the space upwards except DEL (so no CR or LF).
pub open spec fn is_header_value_char(c: char) -> bool {
    c == '\t' || (32 <= c as u32 && c as u32 != 127)
}

/// `s` can be sent as an HTTP header value.
pub open spec fn is_header_value(s: Seq<char>) -> bool {
    forall|i: int| 0 <= i < s.len() ==> is_header_value_char(#[trigger] s[i])
}

/// A `303 See Other` to `location`, which must be a valid header value.
pub fn redirect_to(location: &str) -> (r: RedirectResponse)
    requires
        is_header_value(location@),
    ensures
        r.status == 303,
        header_lines(r.headers@) == seq![("location"@, location@)],
{
    let headers = vec![
        ResponseHeader { name: String::from_str("location"), value: String::from_str(location) },
    ];
    let r = RedirectResponse { status: SEE_OTHER, headers };
    assert(header_lines(r.headers@) =~= seq![("location"@, location@)]);
    r
}

/// The `Set-Cookie` value that makes the browser drop the session cookie.
pub open spec fn clearing_cookie_text() -> Seq<char> {
    "auth_token=; Max-Age=0; Path=/; HttpOnly; SameSite=Strict"@
}

/// A `303 See Other` to `/login` that also drops the session cookie.
pub fn redirect_to_login_clearing_cookie() -> (r: RedirectResponse)
    ensures
        r.status == 303,
        header_lines(r.headers@) == seq![
            ("location"@, "/login"@),
            ("Set-Cookie"@, clearing_cookie_text()),
        ],
{
    let headers = vec![
        ResponseHeader { name: String::from_str("location"), value: String::from_str("/login") },
        ResponseHeader {
            name: String::from_str("Set-Cookie"),
            value: String::from_str("auth_token=; Max-Age=0; Path=/; HttpOnly; SameSite=Strict"),
        },
    ];
    let r = RedirectResponse { status: SEE_OTHER, headers };
    assert(header_lines(r.headers@) =~= seq![
        ("location"@, "/login"@),
        ("Set-Cookie"@, clearing_cookie_text()),
    ]);
    r
}

// ---------------------------------------------------------------------------
// Access rules
// ---------------------------------------------------------------------------

/// What a request carries by way of a session.
#[derive(Clone, Copy, Debug, PartialEq, Eq)]
pub enum TokenState {
    /// No `auth_token` cookie.
    Missing,
    /// A token that is signed with the secret and has not expired.
    Valid,
    /// Any other token.
    Invalid,
}

/// What the middleware does with a request.
#[derive(Clone, Copy, Debug, PartialEq, Eq)]
pub enum AuthAction {
    /// Hand the request on to its handler.
    Proceed,
    /// Send the browser to `/`.
    RedirectHome,
    /// Send the browser to `/login`.
    RedirectToLogin,
    /// Send the browser to `/login` and drop its session cookie.
    RedirectToLoginClearingCookie,
}

/// The header lines of the redirect that answers a request the middleware stops.
pub open spec fn redirect_lines(action: AuthAction) -> Seq<(Seq<char>, Seq<char>)> {
    match action {
        AuthAction::Proceed => Seq::empty(),
        AuthAction::RedirectHome => seq![("location"@, "/"@)],
        AuthAction::RedirectToLogin => seq![("location"@, "/login"@)],
        AuthAction::RedirectToLoginClearingCookie => seq![
            ("location"@, "/login"@),
            ("Set-Cookie"@, clearing_cookie_text()),
        ],
    }
}

impl AuthAction {
    /// The redirect that answers the request, or `None` when it proceeds.
    pub fn response(&self) -> (r: Option<RedirectResponse>)
        ensures
            (r is None) == (*self == AuthAction::Proceed),
            r matches Some(resp) ==> resp.status == 303 && header_lines(resp.headers@)
                == redirect_lines(*self),
    {
        proof {
            reveal_strlit("/");
            reveal_strlit("/login");
        }
        match self {
            AuthAction::Proceed => None,
            AuthAction::RedirectHome => Some(redirect_to("/")),
            AuthAction::RedirectToLogin => Some(redirect_to("/login")),
            AuthAction::RedirectToLoginClearingCookie => Some(redirect_to_login_clearing_cookie()),
        }
    }
}

/// The access rule: the health check is always open; the login page is open without a
/// session, sends a valid session home and drops an invalid one; every other page needs
/// a valid session, sends a request without one to the login page and drops an invalid
/// one.
pub open spec fn access_rule(path: Seq<char>, token: TokenState) -> AuthAction {
    if path == "/health"@ {
        AuthAction::Proceed
    } else if path == "/login"@ {
        match token {
            TokenState::Valid => AuthAction::RedirectHome,
            TokenState::Invalid => AuthAction::RedirectToLoginClearingCookie,
            TokenState::Missing => AuthAction::Proceed,
        }
    } else {
        match token {
            TokenState::Valid => AuthAction::Proceed,
            TokenState::Invalid => AuthAction::RedirectToLoginClearingCookie,
            TokenState::Missing => AuthAction::RedirectToLogin,
        }
    }
}

/// Applies the access rule to a request for `path` with the given session.
pub fn auth_decision(path: &str, token: TokenState) -> (r: AuthAction)
    ensures
        r == access_rule(path@, token),
{
    if same_text(path, "/health") {
        AuthAction::Proceed
    } else if same_text(path, "/login") {
        match token {
            TokenState::Valid => AuthAction::RedirectHome,
            TokenState::Invalid => AuthAction::RedirectToLoginClearingCookie,
            TokenState::Missing => AuthAction::Proceed,
        }
    } else {
        match token {
            TokenState::Valid => AuthAction::Proceed,
            TokenState::Invalid => AuthAction::RedirectToLoginClearingCookie,
            TokenState::Missing => AuthAction::RedirectToLogin,
        }
    }
}

/// The session a request carries when its `auth_token` cookie is `token` and the
/// clock reads `now`.
pub open spec fn session_state(token: Option<Seq<char>>, secret: Seq<char>, now: int) -> TokenState {
    match token {
        None => TokenState::Missing,
        Some(t) => if jwt_valid_at(t, secret, now) {
            TokenState::Valid
        } else {
            TokenState::Invalid
        },
    }
}

/// The `auth_token` cookie of an optional `Cookie` header.
pub open spec fn header_token(cookie_header: Option<&str>) -> Option<Seq<char>> {
    auth_token_in(
        match cookie_header {
            Some(h) => Some(h@),
            None => None,
        },
    )
}

/// Decides a request for `path` that carries the `Cookie` header `cookie_header` when
/// the clock reads `now`: the health check proceeds at once; otherwise the access rule
/// is applied to the session the `auth_token` cookie gives under the configured secret.
/// The configuration is read only where a token is present.
pub fn auth_middleware_at(path: &str, cookie_header: Option<&str>, store: &ConfigStore, now: u64) -> (r:
    AuthAction)
    requires
        header_token(cookie_header) is Some && path@ != "/health"@ ==> store@ is Some,
    ensures
        path@ == "/health"@ ==> r == AuthAction::Proceed,
        path@ != "/health"@ ==> r == access_rule(
            path@,
            session_state(header_token(cookie_header), store@->0.jwt_secret@, now as int),
        ),
{
    if same_text(path, "/health") {
        return AuthAction::Proceed;
    }
    let state = match session_token(cookie_header) {
        None => TokenState::Missing,
        Some(token) => {
            let secret = jwt_secret(store);
            if validate_jwt_at(token.as_str(), secret.as_str(), now) {
                TokenState::Valid
            } else {
                TokenState::Invalid
            }
        },
    };
    auth_decision(path, state)
}

/// Decides a request for `path` that carries the `Cookie` header `cookie_header`: the
/// health check proceeds at once; a request without an `auth_token` cookie gets the
/// access rule for a missing session; otherwise the configured secret and the clock (as
/// jsonwebtoken reads it) are read and `auth_middleware_at` decides. A token that does
/// not decode under the secret counts as invalid.
pub fn auth_middleware(path: &str, cookie_header: Option<&str>, store: &ConfigStore) -> (r:
    AuthAction)
    requires
        header_token(cookie_header) is Some && path@ != "/health"@ ==> store@ is Some,
    ensures
        path@ == "/health"@ ==> r == AuthAction::Proceed,
        header_token(cookie_header) is None ==> r == access_rule(path@, TokenState::Missing),
        path@ != "/health"@ && header_token(cookie_header) is Some ==> exists|now: int|
            0 <= now && r == access_rule(
                path@,
                #[trigger] session_state(header_token(cookie_header), store@->0.jwt_secret@, now),
            ),
        header_token(cookie_header) matches Some(t) && jwt_hs256_decoded(
            t,
            store@->0.jwt_secret@,
        ) is None ==> r == access_rule(path@, TokenState::Invalid),
{
    if same_text(path, "/health") {
        return AuthAction::Proceed;
    }
    if session_token(cookie_header).is_none() {
        return auth_decision(path, TokenState::Missing);
    }
    let now = jwt_current_timestamp();
    auth_middleware_at(path, cookie_header, store, now)
}

/// The access rules as the service promises them: the health check is open whatever
/// the session; a request without a session for any other page than the login page goes
/// to the login page; an invalid session is dropped and sent to the login page on every
/// page but the health check; a valid session on the login page is sent home; the login
/// page is open without a session.
pub proof fn lemma_access_rules(path: Seq<char>, token: TokenState)
    ensures
        path == "/health"@ ==> access_rule(path, token) == AuthAction::Proceed,
        path != "/health"@ && path != "/login"@ ==> (access_rule(path, TokenState::Missing)
            == AuthAction::RedirectToLogin),
        path != "/health"@ ==> access_rule(path, TokenState::Invalid)
            == AuthAction::RedirectToLoginClearingCookie,
        path != "/health"@ && path == "/login"@ ==> access_rule(path, TokenState::Valid)
            == AuthAction::RedirectHome && access_rule(path, TokenState::Missing)
            == AuthAction::Proceed,
        path != "/login"@ ==> access_rule(path, TokenState::Valid) == AuthAction::Proceed,
{
}

} // verus!
