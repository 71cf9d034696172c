use chrono::Datelike;
use pds::calendar::Date;
use pds::counter::{get_now_counter, next_number, previous_number, set_number, CounterFlow, CounterOp, CounterPhase, SetCounterRequest};
use pds::session::{login, LoginRequest};
use pds::exchange::{Action, CounterRow, Event, Reply, StoreError};

fn today() -> Date {
    Date::from_days_from_ce(chrono::Utc::now().date_naive().num_days_from_ce()).unwrap()
}

fn row(number: i32) -> CounterRow {
    CounterRow { id: 3, date: today(), number }
}

/// Runs a gated counter request up to the lookup of today's counter.
fn past_gate(start: (CounterFlow, Action)) -> CounterFlow {
    let (flow, action) = start;
    assert_eq!(action, Action::LookupSession("k".to_string()));
    let (flow, action) = flow.step(Event::SessionChecked(true));
    match action {
        Action::FindCounter(d) => assert!(d.days_from_ce() >= today().days_from_ce() - 1),
        other => panic!("unexpected {:?}", other),
    }
    flow
}

fn cookie() -> Option<String> {
    Some("k".to_string())
}

#[test]
fn show_counter_finds_todays_counter() {
    let (flow, action) = get_now_counter();
    let day = match flow.phase {
        CounterPhase::AwaitCounter(d) => d,
        other => panic!("unexpected {:?}", other),
    };
    assert_eq!(action, Action::FindCounter(day));
    let t = today().days_from_ce();
    assert!(day.days_from_ce() == t || day.days_from_ce() + 1 == t);
}

#[test]
fn show_counter_without_row_is_zero() {
    let (flow, _) = get_now_counter();
    let (next, action) = flow.step(Event::CounterFound(Ok(None)));
    assert_eq!(next.phase, CounterPhase::Finished);
    assert_eq!(action, Action::Respond(Reply::Number(0)));
}

#[test]
fn show_counter_with_row_is_its_number() {
    let (flow, _) = get_now_counter();
    let (_, action) = flow.step(Event::CounterFound(Ok(Some(row(17)))));
    assert_eq!(action, Action::Respond(Reply::Number(17)));
}

#[test]
fn show_counter_store_failure() {
    let (flow, _) = get_now_counter();
    let (_, action) = flow.step(Event::CounterFound(Err(StoreError)));
    assert_eq!(action, Action::Respond(Reply::InternalServerError));
}

#[test]
fn next_without_cookie_is_refused() {
    let (flow, action) = next_number(None);
    assert_eq!(flow.phase, CounterPhase::Finished);
    assert_eq!(action, Action::Respond(Reply::BadRequest));
}

#[test]
fn next_with_unknown_session_is_refused() {
    let (flow, _) = next_number(cookie());
    let (flow, action) = flow.step(Event::SessionChecked(false));
    assert_eq!(flow.phase, CounterPhase::Finished);
    assert_eq!(action, Action::Respond(Reply::BadRequest));
}

#[test]
fn next_advances_an_existing_counter() {
    let flow = past_gate(next_number(cookie()));
    let (flow, action) = flow.step(Event::CounterFound(Ok(Some(row(5)))));
    assert_eq!(action, Action::UpdateCounter(row(6)));
    assert_eq!(flow.phase, CounterPhase::AwaitSave);
    let (flow, action) = flow.step(Event::CounterSaved(Ok(6)));
    assert_eq!(flow.phase, CounterPhase::Finished);
    assert_eq!(action, Action::Respond(Reply::Number(6)));
}

#[test]
fn next_starts_a_missing_counter_at_one() {
    let flow = past_gate(next_number(cookie()));
    let day = match flow.phase {
        CounterPhase::AwaitCounter(d) => d,
        other => panic!("unexpected {:?}", other),
    };
    let (_, action) = flow.step(Event::CounterFound(Ok(None)));
    assert_eq!(action, Action::InsertCounter(day, 1));
}

#[test]
fn next_save_failure() {
    let flow = past_gate(next_number(cookie()));
    let (flow, _) = flow.step(Event::CounterFound(Ok(Some(row(5)))));
    let (_, action) = flow.step(Event::CounterSaved(Err(StoreError)));
    assert_eq!(action, Action::Respond(Reply::InternalServerError));
}

#[test]
fn next_refuses_to_overflow() {
    let flow = past_gate(next_number(cookie()));
    assert!(!flow.accepts(&Event::CounterFound(Ok(Some(row(i32::MAX))))));
    assert!(flow.accepts(&Event::CounterFound(Ok(Some(row(i32::MAX - 1))))));
    assert!(!flow.accepts(&Event::CounterSaved(Ok(1))));
}

#[test]
fn previous_moves_back_by_one() {
    let flow = past_gate(previous_number(cookie()));
    let (_, action) = flow.step(Event::CounterFound(Ok(Some(row(3)))));
    assert_eq!(action, Action::UpdateCounter(row(2)));
}

#[test]
fn previous_stops_at_zero() {
    let flow = past_gate(previous_number(cookie()));
    let (_, action) = flow.step(Event::CounterFound(Ok(Some(row(0)))));
    assert_eq!(action, Action::UpdateCounter(row(0)));
    let (_, action) = flow.step(Event::CounterFound(Ok(Some(row(-5)))));
    assert_eq!(action, Action::UpdateCounter(row(0)));
}

#[test]
fn previous_without_counter_answers_zero_and_writes_nothing() {
    let flow = past_gate(previous_number(cookie()));
    let (next, action) = flow.step(Event::CounterFound(Ok(None)));
    assert_eq!(next.phase, CounterPhase::Finished);
    assert_eq!(action, Action::Respond(Reply::Number(0)));
}

#[test]
fn previous_refuses_to_overflow() {
    let flow = past_gate(previous_number(cookie()));
    assert!(!flow.accepts(&Event::CounterFound(Ok(Some(row(i32::MIN))))));
}

#[test]
fn set_writes_the_target() {
    let flow = past_gate(set_number(SetCounterRequest { number: 42 }, cookie()));
    assert_eq!(flow.op, CounterOp::SetTo(42));
    let (_, action) = flow.step(Event::CounterFound(Ok(Some(row(7)))));
    assert_eq!(action, Action::UpdateCounter(row(42)));
    let day = match flow.phase {
        CounterPhase::AwaitCounter(d) => d,
        other => panic!("unexpected {:?}", other),
    };
    let (_, action) = flow.step(Event::CounterFound(Ok(None)));
    assert_eq!(action, Action::InsertCounter(day, 42));
}

#[test]
fn set_without_cookie_is_refused() {
    let (_, action) = set_number(SetCounterRequest { number: 1 }, None);
    assert_eq!(action, Action::Respond(Reply::BadRequest));
}

/// A store holding one counter: runs a request against it, writes included.
fn run(start: (CounterFlow, Action), store: &mut Option<i32>) -> Reply {
    let (mut flow, mut action) = start;
    loop {
        let event = match action {
            Action::Respond(r) => return r,
            Action::LookupSession(_) => Event::SessionChecked(true),
            Action::FindCounter(_) => Event::CounterFound(Ok(store.map(row))),
            Action::UpdateCounter(r) => {
                *store = Some(r.number);
                Event::CounterSaved(Ok(r.number))
            }
            Action::InsertCounter(_, n) => {
                *store = Some(n);
                Event::CounterSaved(Ok(n))
            }
            other => panic!("unexpected {:?}", other),
        };
        assert!(flow.accepts(&event));
        let (f, a) = flow.step(event);
        flow = f;
        action = a;
    }
}

#[test]
fn previous_undoes_next_on_a_store() {
    for start in [None, Some(0), Some(4)] {
        let mut store = start;
        let before = run(get_now_counter(), &mut store);
        assert_eq!(run(next_number(cookie()), &mut store), Reply::Number(start.unwrap_or(0) + 1));
        run(previous_number(cookie()), &mut store);
        assert_eq!(run(get_now_counter(), &mut store), before);
    }
}

#[test]
fn previous_does_not_undo_next_below_zero() {
    let mut store = Some(-5);
    run(next_number(cookie()), &mut store);
    assert_eq!(run(previous_number(cookie()), &mut store), Reply::Number(0));
}

#[test]
fn set_then_show_on_a_store() {
    let mut store = Some(9);
    assert_eq!(run(set_number(SetCounterRequest { number: 30 }, cookie()), &mut store), Reply::Number(30));
    assert_eq!(run(get_now_counter(), &mut store), Reply::Number(30));
}

#[test]
fn previous_never_answers_below_zero() {
    for start in [None, Some(-3), Some(0), Some(1), Some(100)] {
        let mut store = start;
        match run(previous_number(cookie()), &mut store) {
            Reply::Number(n) => assert!(n >= 0),
            other => panic!("unexpected {:?}", other),
        }
    }
}

#[test]
fn a_logged_in_administrator_advances_the_counter() {
    let account = "admin".to_string();
    let password = "secret".to_string();
    let (flow, action) = login(
        LoginRequest { account: account.clone(), password: password.clone() },
        &account,
        &password,
        None,
    );
    let id = match action {
        Action::StoreSession(id) => id,
        other => panic!("unexpected {:?}", other),
    };
    let cookie = match flow.step(Event::SessionStored).1 {
        Action::Respond(Reply::SessionOpened(c)) => c,
        other => panic!("unexpected {:?}", other),
    };
    let (flow, action) = next_number(Some(cookie.value));
    assert_eq!(action, Action::LookupSession(id));
    let (flow, _) = flow.step(Event::SessionChecked(true));
    let (flow, action) = flow.step(Event::CounterFound(Ok(Some(row(7)))));
    assert_eq!(action, Action::UpdateCounter(row(8)));
    let (_, action) = flow.step(Event::CounterSaved(Ok(8)));
    assert_eq!(action, Action::Respond(Reply::Number(8)));
}

#[test]
fn setting_twice_is_setting_once() {
    let mut once = Some(4);
    run(set_number(SetCounterRequest { number: 11 }, cookie()), &mut once);
    let mut twice = Some(4);
    run(set_number(SetCounterRequest { number: 11 }, cookie()), &mut twice);
    run(set_number(SetCounterRequest { number: 11 }, cookie()), &mut twice);
    assert_eq!(once, twice);
}
