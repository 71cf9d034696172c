use vstd::prelude::*;
use crate::exchange::{Action, Event, Reply};

verus! {

/// The credentials an administrator logs in with.
#[derive(Debug, PartialEq, Eq)]
pub struct LoginRequest {
    pub account: String,
    pub password: String,
}

/// The cookie that carries an administrator session.
#[derive(Debug, PartialEq, Eq)]
pub struct SessionCookie {
    pub name: String,
    pub value: String,
    pub max_age_days: i64,
    pub path: String,
    pub domain: String,
    pub http_only: bool,
    /// `SameSite=None`.
    pub same_site_none: bool,
    pub secure: bool,
    pub partitioned: bool,
}

/// How long a session cookie is kept by the browser, in days.
pub const SESSION_MAX_AGE_DAYS: i64 = 49i64;

pub open spec fn is_lower_hex_digit(c: char) -> bool {
    ('0' <= c && c <= '9') || ('a' <= c && c <= 'f')
}

pub open spec fn is_hyphen_position(i: int) -> bool {
    i == 8 || i == 13 || i == 18 || i == 23
}

/// A random (version 4) UUID in lower-case hyphenated form: 36 characters, hyphens
/// at positions 8, 13, 18 and 23, lower-case hex digits elsewhere, the version digit '4' at 14.
pub open spec fn is_session_id(s: Seq<char>) -> bool {
    &&& s.len() == 36
    &&& forall|i: int| 0 <= i < 36 ==> (if is_hyphen_position(i) { s[i] == '-' } else { is_lower_hex_digit(#[trigger] s[i]) })
    &&& s[14] == '4'
}

/// The domain a session cookie is set for: the configured one, or "localhost".
pub open spec fn cookie_domain(domain: Option<String>) -> Seq<char> {
    match domain {
        Some(d) => d@,
        None => "localhost"@,
    }
}

/// `c` is the session cookie that carries `value` for `domain`.
pub open spec fn is_session_cookie(c: SessionCookie, value: Seq<char>, domain: Option<String>) -> bool {
    &&& c.name@ == "session"@
    &&& c.value@ == value
    &&& c.max_age_days == SESSION_MAX_AGE_DAYS
    &&& c.path@ == "/"@
    &&& c.domain@ == cookie_domain(domain)
    &&& c.http_only
    &&& c.same_site_none
    &&& c.secure
    &&& c.partitioned
}

/// Calls `uuid::Uuid::new_v4` and formats the result with `ToString`. The contract
/// claims only the shape of every outcome (uuid's lower-hex `Display` writes the
/// 36-character hyphenated form, and `new_v4` sets the version nibble to 4);
/// which identifier comes out is random. uuid panics if the system's random source fails.
#[verifier::external_body]
fn new_session_id() -> (id: String)
    ensures
        is_session_id(id@),
{
    uuid::Uuid::new_v4().to_string()
}

/// The session cookie that carries `value`, for the configured domain, "localhost" if none is.
pub fn session_cookie(value: String, domain: Option<String>) -> (c: SessionCookie)
    ensures
        is_session_cookie(c, value@, domain),
{
    let domain = match domain {
        Some(d) => d,
        None => "localhost".to_owned(),
    };
    SessionCookie {
        name: "session".to_owned(),
        value,
        max_age_days: SESSION_MAX_AGE_DAYS,
        path: "/".to_owned(),
        domain,
        http_only: true,
        same_site_none: true,
        secure: true,
        partitioned: true,
    }
}

/// The first step of a request that needs an administrator session: without a
/// session cookie it is refused as not logged in; with one, the cookie's value,
/// the session identifier, is looked up among open sessions.
pub open spec fn gate_opens(cookie: Option<String>, a: Action) -> bool {
    match cookie {
        None => a == Action::Respond(Reply::BadRequest),
        Some(k) => a == Action::LookupSession(k),
    }
}

pub fn open_gate(cookie: Option<String>) -> (a: Action)
    ensures
        gate_opens(cookie, a),
{
    match cookie {
        None => Action::Respond(Reply::BadRequest),
        Some(k) => Action::LookupSession(k),
    }
}

/// A login in progress.
#[derive(Debug, PartialEq, Eq)]
pub enum LoginFlow {
    /// The session was granted; once it is recorded, this cookie is sent.
    AwaitStore(SessionCookie),
    Finished,
}

pub open spec fn credentials_missing(request: LoginRequest) -> bool {
    request.account@.len() == 0 || request.password@.len() == 0
}

pub open spec fn credentials_match(request: LoginRequest, account: String, password: String) -> bool {
    request.account@ == account@ && request.password@ == password@
}

/// What a login starts with: empty or wrong credentials are refused as a bad
/// request; right ones record a new session whose identifier the cookie carries.
pub open spec fn logs_in(request: LoginRequest, account: String, password: String, domain: Option<String>, r: (LoginFlow, Action)) -> bool {
    if credentials_missing(request) || !credentials_match(request, account, password) {
        r == (LoginFlow::Finished, Action::Respond(Reply::BadRequest))
    } else {
        &&& r.1 matches Action::StoreSession(id)
        &&& is_session_id(id@)
        &&& r.0 matches LoginFlow::AwaitStore(c)
        &&& is_session_cookie(c, id@, domain)
    }
}

/// A login opens a session exactly when the account and password given are not
/// empty and equal the configured account and password, whatever their length or
/// content; otherwise it opens none and answers a bad request.
pub proof fn login_opens_exactly_on_right_credentials(
    request: LoginRequest,
    account: String,
    password: String,
    domain: Option<String>,
    r: (LoginFlow, Action),
)
    requires
        logs_in(request, account, password, domain, r),
    ensures
        r.1 is StoreSession <==> (request.account@.len() > 0 && request.password@.len() > 0
            && request.account@ == account@ && request.password@ == password@),
        !(r.1 is StoreSession) ==> r.1 == Action::Respond(Reply::BadRequest),
{
}

/// Starts a login against the configured `account` and `password`. Empty
/// credentials are a bad request, and so are wrong ones; right ones open a new
/// session under a fresh random identifier, to be recorded before the cookie that
/// carries it is sent.
pub fn login(request: LoginRequest, account: &String, password: &String, domain: Option<String>) -> (r: (LoginFlow, Action))
    ensures
        logs_in(request, *account, *password, domain, r),
        r.1 is StoreSession <==> (request.account@.len() > 0 && request.password@.len() > 0
            && request.account@ == account@ && request.password@ == password@),
{
    if request.account.as_str().is_empty() || request.password.as_str().is_empty() {
        return (LoginFlow::Finished, Action::Respond(Reply::BadRequest));
    }
    if request.account == *account && request.password == *password {
        let id = new_session_id();
        let cookie = session_cookie(id.clone(), domain);
        (LoginFlow::AwaitStore(cookie), Action::StoreSession(id))
    } else {
        (LoginFlow::Finished, Action::Respond(Reply::BadRequest))
    }
}

impl LoginFlow {
    pub open spec fn can_take(&self, e: Event) -> bool {
        self matches LoginFlow::AwaitStore(_) && e is SessionStored
    }

    pub fn accepts(&self, e: &Event) -> (b: bool)
        ensures
            b == self.can_take(*e),
    {
        matches!(self, LoginFlow::AwaitStore(_)) && matches!(e, Event::SessionStored)
    }

    pub open spec fn takes(self, e: Event, next: LoginFlow, a: Action) -> bool {
        match self {
            LoginFlow::AwaitStore(c) => next == LoginFlow::Finished && a == Action::Respond(Reply::SessionOpened(c)),
            LoginFlow::Finished => false,
        }
    }

    /// Once the session is recorded, the cookie that carries it is sent.
    pub fn step(self, e: Event) -> (r: (LoginFlow, Action))
        requires
            self.can_take(e),
        ensures
            self.takes(e, r.0, r.1),
    {
        match self {
            LoginFlow::AwaitStore(c) => (LoginFlow::Finished, Action::Respond(Reply::SessionOpened(c))),
            LoginFlow::Finished => (LoginFlow::Finished, Action::Respond(Reply::InternalServerError)),
        }
    }
}

/// A check of the administrator session in progress.
#[derive(Clone, Copy, Debug, PartialEq, Eq)]
pub enum SessionCheckFlow {
    AwaitSession,
    Finished,
}

/// The first step of a session check: as `gate_opens` says, and the flow waits on its lookup.
pub open spec fn starts_check(cookie: Option<String>, r: (SessionCheckFlow, Action)) -> bool {
    &&& gate_opens(cookie, r.1)
    &&& cookie is Some ==> r.0 is AwaitSession
    &&& cookie is None ==> r.0 is Finished
}

/// Starts the check whether the request carries an open administrator session,
/// given the value of its session cookie.
pub fn check_login_state(cookie: Option<String>) -> (r: (SessionCheckFlow, Action))
    ensures
        starts_check(cookie, r),
{
    let finished = cookie.is_none();
    let a = open_gate(cookie);
    if finished {
        (SessionCheckFlow::Finished, a)
    } else {
        (SessionCheckFlow::AwaitSession, a)
    }
}

impl SessionCheckFlow {
    pub open spec fn can_take(&self, e: Event) -> bool {
        self is AwaitSession && e is SessionChecked
    }

    pub fn accepts(&self, e: &Event) -> (b: bool)
        ensures
            b == self.can_take(*e),
    {
        matches!(self, SessionCheckFlow::AwaitSession) && matches!(e, Event::SessionChecked(_))
    }

    pub open spec fn takes(self, e: Event, next: SessionCheckFlow, a: Action) -> bool {
        &&& next is Finished
        &&& e matches Event::SessionChecked(found)
        &&& a == Action::Respond(if found { Reply::Success } else { Reply::BadRequest })
    }

    /// An open session is confirmed; otherwise the request is refused.
    pub fn step(self, e: Event) -> (r: (SessionCheckFlow, Action))
        requires
            self.can_take(e),
        ensures
            self.takes(e, r.0, r.1),
    {
        match e {
            Event::SessionChecked(true) => (SessionCheckFlow::Finished, Action::Respond(Reply::Success)),
            _ => (SessionCheckFlow::Finished, Action::Respond(Reply::BadRequest)),
        }
    }
}

/// Logging in lets the administrator in. After a successful login, which
/// records session `id` and then sends cookie `c`, a check handed `c`'s value looks
/// up a key equal to `id`; a session store that keeps what login recorded finds
/// it, and the check answers success.
pub proof fn login_opens_the_gate(
    request: LoginRequest,
    account: String,
    password: String,
    domain: Option<String>,
    r: (LoginFlow, Action),
    id: String,
    c: SessionCookie,
    sent: (LoginFlow, Action),
    check: (SessionCheckFlow, Action),
    answered: (SessionCheckFlow, Action),
)
    requires
        !credentials_missing(request),
        credentials_match(request, account, password),
        logs_in(request, account, password, domain, r),
        r.1 == Action::StoreSession(id),
        r.0 == LoginFlow::AwaitStore(c),
        r.0.takes(Event::SessionStored, sent.0, sent.1),
        starts_check(Some(c.value), check),
        check.0.takes(Event::SessionChecked(true), answered.0, answered.1),
    ensures
        sent.1 == Action::Respond(Reply::SessionOpened(c)),
        check.1 matches Action::LookupSession(k) && k@ == id@,
        answered.1 == Action::Respond(Reply::Success),
{
}

} // verus!
