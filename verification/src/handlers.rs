//! What the request handlers decide before they touch the database: which submitted
//! forms are accepted and what is stored, where the browser is sent afterwards, and the
//! session cookie a successful login hands out.

use vstd::prelude::*;
use vstd::string::*;
use crate::auth::{
    access_rule, auth_token_in, carries_session, cookie_expiry, cookie_text, jwt_expiry,
    jwt_hs256_decoded, jwt_hs256_token, lemma_session_cookie_is_read_back, offset_now_timestamp,
    session_cookie_at_time, session_state, utc_now_timestamp, verify_credentials_at, AuthAction,
    Credentials, CHRONO_MAX_TIMESTAMP, JWT_LEEWAY_SECONDS, TIME_MAX_TIMESTAMP, TIME_MIN_TIMESTAMP,
};
use crate::config::ConfigStore;
use crate::dates::{chrono_parse_date, parse_form_date, UtcDateTime};
use crate::error::AppError;
use crate::forms::{CreateContact, CreateCosa, CreateNote, CreateReminder, Login};
use crate::text::{
    all_digits, append_signed_decimal, is_whitespace_spec, lemma_signed_decimal_reads_back,
    lemma_trim_idempotent, signed_decimal, signed_digits_value, trim, trim_spec,
};

verus! {

/// A cosa to insert.
pub struct NewCosa {
    pub name: String,
    pub description: String,
}

/// A note to insert under cosa `cosa_id`.
pub struct NewNote {
    pub cosa_id: i64,
    pub title: String,
    pub body: String,
}

/// A reminder to insert under cosa `cosa_id`, falling due at `due_at`.
pub struct NewReminder {
    pub cosa_id: i64,
    pub title: String,
    pub body: String,
    pub due_at: UtcDateTime,
}

/// A contact to insert under cosa `cosa_id`.
pub struct NewContact {
    pub cosa_id: i64,
    pub name: String,
    pub contact_details: String,
}

/// The trimmed text, and the fact that it has nothing left to trim.
fn trimmed(s: &String) -> (r: String)
    ensures
        r@ == trim_spec(s@),
        trim_spec(r@) == r@,
{
    proof {
        lemma_trim_idempotent(s@);
    }
    trim(s.as_str())
}

/// Accepts a new cosa when its name and description are not blank, and stores both
/// trimmed.
pub fn create_cosa(form: &CreateCosa) -> (r: Result<NewCosa, AppError>)
    ensures
        match r {
            Ok(c) => {
                &&& trim_spec(form.name@).len() > 0
                &&& trim_spec(form.description@).len() > 0
                &&& c.name@ == trim_spec(form.name@)
                &&& c.description@ == trim_spec(form.description@)
                &&& trim_spec(c.name@) == c.name@
                &&& trim_spec(c.description@) == c.description@
            },
            Err(e) => e == AppError::BadRequest && (trim_spec(form.name@).len() == 0 || trim_spec(
                form.description@,
            ).len() == 0),
        },
{
    let name = trimmed(&form.name);
    if name.as_str().is_empty() {
        return Err(AppError::BadRequest);
    }
    let description = trimmed(&form.description);
    if description.as_str().is_empty() {
        return Err(AppError::BadRequest);
    }
    Ok(NewCosa { name, description })
}

/// Accepts a new note when its title is not blank; title and body are stored trimmed
/// (the body may be empty).
pub fn create_note(cosa_id: i64, form: &CreateNote) -> (r: Result<NewNote, AppError>)
    ensures
        match r {
            Ok(n) => {
                &&& trim_spec(form.title@).len() > 0
                &&& n.cosa_id == cosa_id
                &&& n.title@ == trim_spec(form.title@)
                &&& n.body@ == trim_spec(form.body@)
                &&& trim_spec(n.title@) == n.title@
                &&& trim_spec(n.body@) == n.body@
            },
            Err(e) => e == AppError::BadRequest && trim_spec(form.title@).len() == 0,
        },
{
    let title = trimmed(&form.title);
    if title.as_str().is_empty() {
        return Err(AppError::BadRequest);
    }
    let body = trimmed(&form.body);
    Ok(NewNote { cosa_id, title, body })
}

/// Accepts a new reminder when its title and body are not blank and its due date reads
/// as `YYYY-MM-DD`; it falls due at midnight (UTC) of that date.
pub fn create_reminder(cosa_id: i64, form: &CreateReminder) -> (r: Result<NewReminder, AppError>)
    ensures
        match r {
            Ok(n) => {
                &&& trim_spec(form.title@).len() > 0
                &&& trim_spec(form.body@).len() > 0
                &&& n.cosa_id == cosa_id
                &&& n.title@ == trim_spec(form.title@)
                &&& n.body@ == trim_spec(form.body@)
                &&& trim_spec(n.title@) == n.title@
                &&& trim_spec(n.body@) == n.body@
                &&& n.due_at.wf()
                &&& chrono_parse_date(form.due_at@, "%Y-%m-%d"@) == Some(
                    (n.due_at.date.year, n.due_at.date.month, n.due_at.date.day),
                )
                &&& n.due_at.hour == 0 && n.due_at.minute == 0 && n.due_at.second == 0
                    && n.due_at.nanosecond == 0
            },
            Err(e) => e == AppError::BadRequest && (trim_spec(form.title@).len() == 0 || trim_spec(
                form.body@,
            ).len() == 0 || chrono_parse_date(form.due_at@, "%Y-%m-%d"@) is None),
        },
{
    let title = trimmed(&form.title);
    if title.as_str().is_empty() {
        return Err(AppError::BadRequest);
    }
    let body = trimmed(&form.body);
    if body.as_str().is_empty() {
        return Err(AppError::BadRequest);
    }
    let date = match parse_form_date(form.due_at.as_str()) {
        Some(d) => d,
        None => return Err(AppError::BadRequest),
    };
    Ok(NewReminder { cosa_id, title, body, due_at: UtcDateTime::start_of_day(date) })
}

/// Accepts a new contact when its name and details are not blank, and stores both
/// trimmed.
pub fn create_contact(cosa_id: i64, form: &CreateContact) -> (r: Result<NewContact, AppError>)
    ensures
        match r {
            Ok(c) => {
                &&& trim_spec(form.name@).len() > 0
                &&& trim_spec(form.contact_details@).len() > 0
                &&& c.cosa_id == cosa_id
                &&& c.name@ == trim_spec(form.name@)
                &&& c.contact_details@ == trim_spec(form.contact_details@)
                &&& trim_spec(c.name@) == c.name@
                &&& trim_spec(c.contact_details@) == c.contact_details@
            },
            Err(e) => e == AppError::BadRequest && (trim_spec(form.name@).len() == 0 || trim_spec(
                form.contact_details@,
            ).len() == 0),
        },
{
    let name = trimmed(&form.name);
    if name.as_str().is_empty() {
        return Err(AppError::BadRequest);
    }
    let contact_details = trimmed(&form.contact_details);
    if contact_details.as_str().is_empty() {
        return Err(AppError::BadRequest);
    }
    Ok(NewContact { cosa_id, name, contact_details })
}

/// The page of cosa `cosa_id`: `/cosas/` followed by the id in decimal.
pub open spec fn cosa_path(cosa_id: int) -> Seq<char> {
    "/cosas/"@ + signed_decimal(cosa_id)
}

/// The page of cosa `n` is `/cosas/` followed by a text that reads back as `n`: the
/// location names the cosa it was made for.
pub proof fn lemma_cosa_path_names_the_cosa(n: int)
    ensures
        cosa_path(n).len() > 7,
        cosa_path(n).subrange(0, 7) == "/cosas/"@,
        n >= 0 ==> all_digits(cosa_path(n).subrange(7, cosa_path(n).len() as int)),
        n < 0 ==> cosa_path(n)[7] == '-' && all_digits(
            cosa_path(n).subrange(8, cosa_path(n).len() as int),
        ),
        signed_digits_value(cosa_path(n).subrange(7, cosa_path(n).len() as int)) == n,
{
    reveal_strlit("/cosas/");
    let p = cosa_path(n);
    lemma_signed_decimal_reads_back(n);
    assert(p.subrange(0, 7) =~= "/cosas/"@);
    assert(p.subrange(7, p.len() as int) =~= signed_decimal(n));
    if n < 0 {
        assert(p.subrange(8, p.len() as int) =~= signed_decimal(n).drop_first());
    }
}

/// Different cosas have different pages.
pub proof fn lemma_cosa_paths_are_distinct(a: int, b: int)
    ensures
        cosa_path(a) == cosa_path(b) ==> a == b,
{
    lemma_cosa_path_names_the_cosa(a);
    lemma_cosa_path_names_the_cosa(b);
}

/// Where the browser goes after something was added to cosa `cosa_id`.
pub fn cosa_location(cosa_id: i64) -> (r: String)
    ensures
        r@ == cosa_path(cosa_id as int),
        r@.len() > 7,
        r@.subrange(0, 7) == "/cosas/"@,
        signed_digits_value(r@.subrange(7, r@.len() as int)) == cosa_id,
{
    proof {
        lemma_cosa_path_names_the_cosa(cosa_id as int);
    }
    let mut out = String::from_str("/cosas/");
    append_signed_decimal(&mut out, cosa_id);
    out
}

/// The login form names exactly the configured credentials (after trimming).
pub open spec fn login_matches(credentials: Credentials, form: Login) -> bool {
    &&& trim_spec(form.email@).len() > 0
    &&& trim_spec(form.password@).len() > 0
    &&& credentials@ == (trim_spec(form.email@), trim_spec(form.password@))
}

/// `r` is what a matching login gives when the token clock reads `now` and the cookie
/// clock reads `at`: the session cookie, expiring 30 days after `at`, that carries the
/// token for `email` expiring 31 days after `now`; or `ClockOutOfRange` exactly where one
/// of those expiries cannot be represented (or `at` lies outside the `time` crate's range).
pub open spec fn session_issued_at(
    r: Result<String, AppError>,
    email: Seq<char>,
    secret: Seq<char>,
    now: int,
    at: int,
) -> bool {
    let token = jwt_hs256_token(email, jwt_expiry(now) as usize, secret);
    match r {
        Ok(cookie) => {
            &&& jwt_expiry(now) <= CHRONO_MAX_TIMESTAMP
            &&& jwt_hs256_decoded(token, secret) == Some(
                (email, (jwt_expiry(now) as usize) as u64),
            )
            &&& TIME_MIN_TIMESTAMP <= at
            &&& cookie_expiry(at) <= TIME_MAX_TIMESTAMP
            &&& cookie@ == cookie_text("auth_token"@, token, true, true, "/"@, cookie_expiry(at) as i64)
            &&& carries_session(cookie@, token)
        },
        Err(e) => e == AppError::ClockOutOfRange && (jwt_expiry(now) > CHRONO_MAX_TIMESTAMP || at
            < TIME_MIN_TIMESTAMP || cookie_expiry(at) > TIME_MAX_TIMESTAMP),
    }
}

/// After a matching login, a request that sends the session cookie back
/// (`auth_token=<token>`) is served on every page but the health check and the login page
/// as long as the clock reads no later than the token's expiry (31 days after the login's
/// token reading) plus the leeway, and is sent to the login page with the cookie dropped
/// after that. This holds where the token has no `;` and no whitespace at its ends, as a
/// JWT's base64url text has none.
pub proof fn lemma_login_then_pages_are_served(
    r: Result<String, AppError>,
    email: Seq<char>,
    secret: Seq<char>,
    now: int,
    at: int,
    path: Seq<char>,
    later: int,
)
    requires
        session_issued_at(r, email, secret, now, at),
        r is Ok,
        0 <= jwt_expiry(now) <= usize::MAX,
        path != "/health"@,
        path != "/login"@,
        forall|k: int|
            0 <= k < jwt_hs256_token(email, jwt_expiry(now) as usize, secret).len() ==> #[trigger] jwt_hs256_token(
                email,
                jwt_expiry(now) as usize,
                secret,
            )[k] != ';',
        jwt_hs256_token(email, jwt_expiry(now) as usize, secret).len() > 0 ==> !is_whitespace_spec(
            jwt_hs256_token(email, jwt_expiry(now) as usize, secret)[0],
        ) && !is_whitespace_spec(jwt_hs256_token(email, jwt_expiry(now) as usize, secret).last()),
    ensures
        carries_session(r->Ok_0@, jwt_hs256_token(email, jwt_expiry(now) as usize, secret)),
        later <= jwt_expiry(now) + JWT_LEEWAY_SECONDS ==> access_rule(
            path,
            session_state(
                auth_token_in(
                    Some("auth_token="@ + jwt_hs256_token(email, jwt_expiry(now) as usize, secret)),
                ),
                secret,
                later,
            ),
        ) == AuthAction::Proceed,
        later > jwt_expiry(now) + JWT_LEEWAY_SECONDS ==> access_rule(
            path,
            session_state(
                auth_token_in(
                    Some("auth_token="@ + jwt_hs256_token(email, jwt_expiry(now) as usize, secret)),
                ),
                secret,
                later,
            ),
        ) == AuthAction::RedirectToLoginClearingCookie,
{
    let token = jwt_hs256_token(email, jwt_expiry(now) as usize, secret);
    lemma_session_cookie_is_read_back(token, path, secret, later);
}

/// Handles the login form against the configured `credentials` when chrono's clock
/// reads `now` and the `time` crate's clock reads `at`: e-mail and password are trimmed
/// and must not be blank; when they match, the session token for `now` is issued and
/// the `Set-Cookie` value for `at` that carries it is returned.
pub fn login_at(store: &ConfigStore, credentials: &Credentials, form: &Login, now: i64, at: i64) -> (r:
    Result<String, AppError>)
    requires
        login_matches(*credentials, *form) ==> store@ is Some && 0 <= now <= CHRONO_MAX_TIMESTAMP,
    ensures
        trim_spec(form.email@).len() == 0 ==> r == Err::<String, AppError>(AppError::BadRequest),
        trim_spec(form.email@).len() > 0 && trim_spec(form.password@).len() == 0 ==> r == Err::<
            String,
            AppError,
        >(AppError::BadRequest),
        trim_spec(form.email@).len() > 0 && trim_spec(form.password@).len() > 0 && credentials@
            != (trim_spec(form.email@), trim_spec(form.password@)) ==> r == Err::<
            String,
            AppError,
        >(AppError::Unauthorized),
        login_matches(*credentials, *form) ==> session_issued_at(
            r,
            credentials@.0,
            store@->0.jwt_secret@,
            now as int,
            at as int,
        ),
{
    let email = trimmed(&form.email);
    if email.as_str().is_empty() {
        return Err(AppError::BadRequest);
    }
    let password = trimmed(&form.password);
    if password.as_str().is_empty() {
        return Err(AppError::BadRequest);
    }
    let target = credentials.duplicate();
    let candidate = Credentials::new(email, password);
    let token = match verify_credentials_at(store, target, candidate, now) {
        Ok(t) => t,
        Err(e) => return Err(e),
    };
    match session_cookie_at_time(token.as_str(), at) {
        Some(c) => Ok(c),
        None => Err(AppError::ClockOutOfRange),
    }
}

/// Handles the login form against the configured `credentials`: `login_at` at the
/// current readings of chrono's and the `time` crate's clocks. The configuration and
/// the clocks are read only when the form names the configured credentials.
pub fn login(store: &ConfigStore, credentials: &Credentials, form: &Login) -> (r: Result<
    String,
    AppError,
>)
    requires
        login_matches(*credentials, *form) ==> store@ is Some,
    ensures
        trim_spec(form.email@).len() == 0 ==> r == Err::<String, AppError>(AppError::BadRequest),
        trim_spec(form.email@).len() > 0 && trim_spec(form.password@).len() == 0 ==> r == Err::<
            String,
            AppError,
        >(AppError::BadRequest),
        trim_spec(form.email@).len() > 0 && trim_spec(form.password@).len() > 0 && credentials@
            != (trim_spec(form.email@), trim_spec(form.password@)) ==> r == Err::<
            String,
            AppError,
        >(AppError::Unauthorized),
        login_matches(*credentials, *form) ==> exists|now: int, at: int|
            0 <= now <= CHRONO_MAX_TIMESTAMP && TIME_MIN_TIMESTAMP <= at <= TIME_MAX_TIMESTAMP
                && #[trigger] session_issued_at(r, credentials@.0, store@->0.jwt_secret@, now, at),
{
    let email = trimmed(&form.email);
    if email.as_str().is_empty() {
        return Err(AppError::BadRequest);
    }
    let password = trimmed(&form.password);
    if password.as_str().is_empty() {
        return Err(AppError::BadRequest);
    }
    if !credentials.matches(&Credentials::new(email, password)) {
        return Err(AppError::Unauthorized);
    }
    let now = utc_now_timestamp();
    let at = offset_now_timestamp();
    login_at(store, credentials, form, now, at)
}

} // verus!
