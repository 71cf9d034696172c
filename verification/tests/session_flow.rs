use pds::exchange::{Action, Event, Reply};
use pds::flow::Flow;
use pds::session::{check_login_state, login, session_cookie, LoginFlow, LoginRequest, SessionCheckFlow};

fn request(account: &str, password: &str) -> LoginRequest {
    LoginRequest { account: account.to_string(), password: password.to_string() }
}

fn admin() -> (String, String) {
    ("admin".to_string(), "secret".to_string())
}

#[test]
fn login_with_empty_account_is_a_bad_request() {
    let (a, p) = admin();
    let (flow, action) = login(request("", "secret"), &a, &p, None);
    assert_eq!(flow, LoginFlow::Finished);
    assert_eq!(action, Action::Respond(Reply::BadRequest));
}

#[test]
fn login_with_empty_password_is_a_bad_request() {
    let (a, p) = admin();
    let (_, action) = login(request("admin", ""), &a, &p, None);
    assert_eq!(action, Action::Respond(Reply::BadRequest));
}

#[test]
fn login_with_wrong_password_is_refused() {
    let (a, p) = admin();
    let (flow, action) = login(request("admin", "guess"), &a, &p, None);
    assert_eq!(flow, LoginFlow::Finished);
    assert_eq!(action, Action::Respond(Reply::BadRequest));
}

#[test]
fn login_with_wrong_account_is_refused() {
    let (a, p) = admin();
    let (_, action) = login(request("root", "secret"), &a, &p, None);
    assert_eq!(action, Action::Respond(Reply::BadRequest));
}

fn assert_session_id(id: &str) {
    assert_eq!(id.len(), 36);
    for (i, c) in id.chars().enumerate() {
        if i == 8 || i == 13 || i == 18 || i == 23 {
            assert_eq!(c, '-');
        } else {
            assert!(c.is_ascii_digit() || ('a'..='f').contains(&c), "{}", id);
        }
    }
    assert_eq!(id.chars().nth(14), Some('4'));
}

#[test]
fn login_with_right_credentials_opens_a_session() {
    let (a, p) = admin();
    let (flow, action) = login(request("admin", "secret"), &a, &p, Some("example.org".to_string()));
    let id = match action {
        Action::StoreSession(id) => id,
        other => panic!("unexpected {:?}", other),
    };
    assert_session_id(&id);
    let cookie = match &flow {
        LoginFlow::AwaitStore(c) => c,
        other => panic!("unexpected {:?}", other),
    };
    assert_eq!(cookie.value, id);
    assert_eq!(cookie.domain, "example.org");
    let (flow, action) = flow.step(Event::SessionStored);
    assert_eq!(flow, LoginFlow::Finished);
    match action {
        Action::Respond(Reply::SessionOpened(c)) => assert_eq!(c.value, id),
        other => panic!("unexpected {:?}", other),
    }
}

#[test]
fn two_logins_get_different_sessions() {
    let (a, p) = admin();
    let (_, first) = login(request("admin", "secret"), &a, &p, None);
    let (_, second) = login(request("admin", "secret"), &a, &p, None);
    assert_ne!(first, second);
}

#[test]
fn session_cookie_defaults_to_localhost() {
    let c = session_cookie("abc".to_string(), None);
    assert_eq!(c.name, "session");
    assert_eq!(c.value, "abc");
    assert_eq!(c.max_age_days, 49);
    assert_eq!(c.path, "/");
    assert_eq!(c.domain, "localhost");
    assert!(c.http_only && c.same_site_none && c.secure && c.partitioned);
}

#[test]
fn session_cookie_takes_the_configured_domain() {
    let c = session_cookie("abc".to_string(), Some("yeyue.org".to_string()));
    assert_eq!(c.domain, "yeyue.org");
}

#[test]
fn check_without_cookie_is_refused() {
    let (flow, action) = check_login_state(None);
    assert_eq!(flow, SessionCheckFlow::Finished);
    assert_eq!(action, Action::Respond(Reply::BadRequest));
    assert!(!flow.accepts(&Event::SessionChecked(true)));
}

#[test]
fn check_looks_the_cookie_up() {
    let (flow, action) = check_login_state(Some("abc".to_string()));
    assert_eq!(action, Action::LookupSession("abc".to_string()));
    assert!(flow.accepts(&Event::SessionChecked(true)));
    assert!(!flow.accepts(&Event::SessionStored));
    let (_, found) = flow.step(Event::SessionChecked(true));
    assert_eq!(found, Action::Respond(Reply::Success));
    let (_, missing) = flow.step(Event::SessionChecked(false));
    assert_eq!(missing, Action::Respond(Reply::BadRequest));
}

#[test]
fn flow_dispatches_to_the_session_check() {
    let (flow, _) = check_login_state(Some("k".to_string()));
    let flow = Flow::SessionCheck(flow);
    assert!(flow.accepts(&Event::SessionChecked(false)));
    let (next, action) = flow.step(Event::SessionChecked(true));
    assert_eq!(next, Flow::SessionCheck(SessionCheckFlow::Finished));
    assert_eq!(action, Action::Respond(Reply::Success));
}

#[test]
fn a_logged_in_administrator_passes_the_session_check() {
    let (a, p) = admin();
    let mut sessions: std::collections::HashSet<String> = std::collections::HashSet::new();
    let (flow, action) = login(request("admin", "secret"), &a, &p, None);
    match action {
        Action::StoreSession(id) => {
            sessions.insert(id);
        }
        other => panic!("unexpected {:?}", other),
    }
    let (_, action) = flow.step(Event::SessionStored);
    let cookie = match action {
        Action::Respond(Reply::SessionOpened(c)) => c,
        other => panic!("unexpected {:?}", other),
    };
    let (flow, action) = check_login_state(Some(cookie.value.clone()));
    let found = match action {
        Action::LookupSession(k) => sessions.contains(&k),
        other => panic!("unexpected {:?}", other),
    };
    assert!(found);
    let (_, action) = flow.step(Event::SessionChecked(found));
    assert_eq!(action, Action::Respond(Reply::Success));
}

#[test]
fn a_session_nobody_opened_is_refused() {
    let (flow, action) = check_login_state(Some("0f1e2d3c-0000-4000-8000-000000000000".to_string()));
    assert!(matches!(action, Action::LookupSession(_)));
    let (_, action) = flow.step(Event::SessionChecked(false));
    assert_eq!(action, Action::Respond(Reply::BadRequest));
}
