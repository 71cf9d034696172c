use vstd::prelude::*;
use crate::calendar::{Date, current_date};
use crate::exchange::{Action, CounterRow, Event, Reply};
use crate::session::{gate_opens, open_gate};

verus! {

/// The number an administrator sets the day's counter to.
#[derive(Debug, PartialEq, Eq)]
pub struct SetCounterRequest {
    pub number: i32,
}

/// What is done to the day's counter.
#[derive(Clone, Copy, Debug, PartialEq, Eq)]
pub enum CounterOp {
    /// Show it; needs no session.
    Show,
    /// Advance it by one.
    Next,
    /// Move it back by one, not below zero.
    Previous,
    /// Set it to a number.
    SetTo(i32),
}

/// The number a day shows: that of its counter, or zero where there is none yet.
pub open spec fn shown(current: Option<int>) -> int {
    match current {
        Some(n) => n,
        None => 0,
    }
}

/// The number an operation writes into the day's counter, given the number it
/// holds (`None`: there is no counter for the day yet); `None` where nothing is written.
pub open spec fn counter_target(op: CounterOp, current: Option<int>) -> Option<int> {
    match op {
        CounterOp::Show => None,
        CounterOp::Next => Some(shown(current) + 1),
        CounterOp::Previous => match current {
            Some(n) => Some(if n - 1 < 0 { 0 } else { n - 1 }),
            None => None,
        },
        CounterOp::SetTo(t) => Some(t as int),
    }
}

/// The number the day's counter holds after the operation, where the write succeeds.
pub open spec fn stored_after(op: CounterOp, current: Option<int>) -> Option<int> {
    match counter_target(op, current) {
        Some(n) => Some(n),
        None => current,
    }
}

pub open spec fn row_number(row: Option<CounterRow>) -> Option<int> {
    match row {
        Some(r) => Some(r.number as int),
        None => None,
    }
}

/// Moving the counter back undoes advancing it: after "next" and then "previous",
/// a day shows the number it showed before, wherever that number was not negative.
pub proof fn previous_undoes_next(current: Option<int>)
    requires
        shown(current) >= 0,
    ensures
        shown(stored_after(CounterOp::Previous, stored_after(CounterOp::Next, current))) == shown(current),
{
}

/// "Next" advances the number a day shows by exactly one, whether or not the day
/// had a counter before.
pub proof fn next_advances_by_one(current: Option<int>)
    ensures
        shown(stored_after(CounterOp::Next, current)) == shown(current) + 1,
{
}

/// "Previous" never writes a negative number; where it writes nothing, the day has
/// no counter yet and its number is zero.
pub proof fn previous_never_below_zero(current: Option<int>)
    ensures
        match counter_target(CounterOp::Previous, current) {
            Some(n) => n >= 0,
            None => current is None && shown(current) == 0,
        },
{
}

/// After "set", the day shows the number that was set.
pub proof fn set_then_show(current: Option<int>, target: i32)
    ensures
        shown(stored_after(CounterOp::SetTo(target), current)) == target,
{
}

/// Setting the counter twice to the same number leaves it as setting it once.
pub proof fn set_twice_is_set_once(current: Option<int>, target: i32)
    ensures
        stored_after(CounterOp::SetTo(target), stored_after(CounterOp::SetTo(target), current))
            == stored_after(CounterOp::SetTo(target), current),
{
}

/// Showing the counter never changes it.
pub proof fn show_changes_nothing(current: Option<int>)
    ensures
        counter_target(CounterOp::Show, current) is None,
        stored_after(CounterOp::Show, current) == current,
{
}

/// Where a counter request stands.
#[derive(Clone, Copy, Debug, PartialEq, Eq)]
pub enum CounterPhase {
    AwaitSession,
    AwaitCounter(Date),
    AwaitSave,
    Finished,
}

/// A counter request in progress.
#[derive(Clone, Copy, Debug, PartialEq, Eq)]
pub struct CounterFlow {
    pub op: CounterOp,
    pub phase: CounterPhase,
}

/// Looking today's counter up: the flow waits for it, and the action asks for it.
pub open spec fn finds_todays_counter(f: CounterFlow, op: CounterOp, a: Action) -> bool {
    &&& f.op == op
    &&& f.phase matches CounterPhase::AwaitCounter(d)
    &&& a == Action::FindCounter(d)
}

/// Starting a request that needs a session: refused as not logged in without a
/// cookie, else the session identifier the cookie carries is looked up.
pub open spec fn counter_gate(op: CounterOp, cookie: Option<String>, f: CounterFlow, a: Action) -> bool {
    &&& f.op == op
    &&& gate_opens(cookie, a)
    &&& cookie is None ==> f.phase is Finished
    &&& cookie is Some ==> f.phase is AwaitSession
}

fn begin_gated(op: CounterOp, cookie: Option<String>) -> (r: (CounterFlow, Action))
    ensures
        counter_gate(op, cookie, r.0, r.1),
{
    let phase = if cookie.is_none() { CounterPhase::Finished } else { CounterPhase::AwaitSession };
    (CounterFlow { op, phase }, open_gate(cookie))
}

/// Starts reading `day`'s counter for an operation: the flow waits on that day's
/// counter, and that day's counter is asked for.
pub fn look_up_counter(op: CounterOp, day: Date) -> (r: (CounterFlow, Action))
    ensures
        r.0.op == op,
        r.0.phase == CounterPhase::AwaitCounter(day),
        r.1 == Action::FindCounter(day),
{
    (CounterFlow { op, phase: CounterPhase::AwaitCounter(day) }, Action::FindCounter(day))
}

/// Reads the clock for today's date, then starts reading today's counter.
fn find_todays_counter(op: CounterOp) -> (r: (CounterFlow, Action))
    ensures
        finds_todays_counter(r.0, op, r.1),
{
    look_up_counter(op, current_date())
}

/// Starts showing today's number; anyone may ask.
pub fn get_now_counter() -> (r: (CounterFlow, Action))
    ensures
        finds_todays_counter(r.0, CounterOp::Show, r.1),
{
    find_todays_counter(CounterOp::Show)
}

/// Starts advancing today's number by one; needs an administrator session.
pub fn next_number(cookie: Option<String>) -> (r: (CounterFlow, Action))
    ensures
        counter_gate(CounterOp::Next, cookie, r.0, r.1),
{
    begin_gated(CounterOp::Next, cookie)
}

/// Starts moving today's number back by one, not below zero; needs an administrator session.
pub fn previous_number(cookie: Option<String>) -> (r: (CounterFlow, Action))
    ensures
        counter_gate(CounterOp::Previous, cookie, r.0, r.1),
{
    begin_gated(CounterOp::Previous, cookie)
}

/// Starts setting today's number; needs an administrator session.
pub fn set_number(request: SetCounterRequest, cookie: Option<String>) -> (r: (CounterFlow, Action))
    ensures
        counter_gate(CounterOp::SetTo(request.number), cookie, r.0, r.1),
{
    begin_gated(CounterOp::SetTo(request.number), cookie)
}

impl CounterFlow {
    /// The events the flow waits for. Advancing a counter at `i32::MAX`, or moving
    /// one back at `i32::MIN`, overflows, which the service does not survive.
    pub open spec fn can_take(&self, e: Event) -> bool {
        match self.phase {
            CounterPhase::AwaitSession => e is SessionChecked,
            CounterPhase::AwaitCounter(_) => match e {
                Event::CounterFound(Ok(Some(row))) => match self.op {
                    CounterOp::Next => row.number < i32::MAX,
                    CounterOp::Previous => row.number > i32::MIN,
                    _ => true,
                },
                Event::CounterFound(_) => true,
                _ => false,
            },
            CounterPhase::AwaitSave => e is CounterSaved,
            CounterPhase::Finished => false,
        }
    }

    pub fn accepts(&self, e: &Event) -> (b: bool)
        ensures
            b == self.can_take(*e),
    {
        match self.phase {
            CounterPhase::AwaitSession => matches!(e, Event::SessionChecked(_)),
            CounterPhase::AwaitCounter(_) => match e {
                Event::CounterFound(Ok(Some(row))) => match self.op {
                    CounterOp::Next => row.number < i32::MAX,
                    CounterOp::Previous => row.number > i32::MIN,
                    _ => true,
                },
                Event::CounterFound(_) => true,
                _ => false,
            },
            CounterPhase::AwaitSave => matches!(e, Event::CounterSaved(_)),
            CounterPhase::Finished => false,
        }
    }

    /// What the flow does with an event it waits for.
    pub open spec fn takes(self, e: Event, next: CounterFlow, a: Action) -> bool {
        &&& next.op == self.op
        &&& match self.phase {
            CounterPhase::AwaitSession => match e {
                Event::SessionChecked(true) => finds_todays_counter(next, self.op, a),
                _ => next.phase is Finished && a == Action::Respond(Reply::BadRequest),
            },
            CounterPhase::AwaitCounter(day) => match e {
                Event::CounterFound(Ok(found)) => match self.op {
                    CounterOp::Show => next.phase is Finished
                        && a == Action::Respond(Reply::Number(shown(row_number(found)) as i32)),
                    _ => match counter_target(self.op, row_number(found)) {
                        Some(n) => next.phase is AwaitSave && match found {
                            Some(row) => a == Action::UpdateCounter(CounterRow { number: n as i32, ..row }),
                            None => a == Action::InsertCounter(day, n as i32),
                        },
                        None => next.phase is Finished && a == Action::Respond(Reply::Number(0)),
                    },
                },
                _ => next.phase is Finished && a == Action::Respond(Reply::InternalServerError),
            },
            _ => next.phase is Finished && match e {
                Event::CounterSaved(Ok(n)) => a == Action::Respond(Reply::Number(n)),
                _ => a == Action::Respond(Reply::InternalServerError),
            },
        }
    }

    /// Takes the next event: the session is checked, today's counter is read and
    /// written as the operation says, and the number the store then holds is sent.
    /// A failed store operation is answered with an internal server error.
    pub fn step(self, e: Event) -> (r: (CounterFlow, Action))
        requires
            self.can_take(e),
        ensures
            self.takes(e, r.0, r.1),
    {
        let op = self.op;
        let finished = CounterFlow { op, phase: CounterPhase::Finished };
        match self.phase {
            CounterPhase::AwaitSession => match e {
                Event::SessionChecked(true) => find_todays_counter(op),
                _ => (finished, Action::Respond(Reply::BadRequest)),
            },
            CounterPhase::AwaitCounter(day) => match e {
                Event::CounterFound(Ok(found)) => {
                    let await_save = CounterFlow { op, phase: CounterPhase::AwaitSave };
                    match op {
                        CounterOp::Show => {
                            let n: i32 = match found {
                                Some(row) => row.number,
                                None => 0,
                            };
                            (finished, Action::Respond(Reply::Number(n)))
                        },
                        CounterOp::Next => match found {
                            Some(row) => (await_save, Action::UpdateCounter(CounterRow { number: row.number + 1, ..row })),
                            None => (await_save, Action::InsertCounter(day, 1)),
                        },
                        CounterOp::Previous => match found {
                            Some(row) => {
                                let mut n: i32 = row.number - 1;
                                if n < 0 {
                                    n = 0;
                                }
                                (await_save, Action::UpdateCounter(CounterRow { number: n, ..row }))
                            },
                            None => (finished, Action::Respond(Reply::Number(0))),
                        },
                        CounterOp::SetTo(t) => match found {
                            Some(row) => (await_save, Action::UpdateCounter(CounterRow { number: t, ..row })),
                            None => (await_save, Action::InsertCounter(day, t)),
                        },
                    }
                },
                _ => (finished, Action::Respond(Reply::InternalServerError)),
            },
            _ => match e {
                Event::CounterSaved(Ok(n)) => (finished, Action::Respond(Reply::Number(n))),
                _ => (finished, Action::Respond(Reply::InternalServerError)),
            },
        }
    }
}

/// The number an action writes into the day's counter, if it writes one.
pub open spec fn written(a: Action) -> Option<int> {
    match a {
        Action::UpdateCounter(row) => Some(row.number as int),
        Action::InsertCounter(_, n) => Some(n as int),
        _ => None,
    }
}

/// Every counter request answers with the number the day shows afterwards: once
/// today's counter is read, the request either answers at once, writing nothing,
/// or writes the number the operation leaves and, where the store reports it
/// kept that number, answers with it.
pub proof fn counter_answers_what_the_day_shows(
    f: CounterFlow,
    current: Option<CounterRow>,
    next: CounterFlow,
    a: Action,
    next2: CounterFlow,
    a2: Action,
)
    requires
        f.phase is AwaitCounter,
        f.can_take(Event::CounterFound(Ok(current))),
        f.takes(Event::CounterFound(Ok(current)), next, a),
        written(a) is Some ==> next.takes(Event::CounterSaved(Ok(written(a)->0 as i32)), next2, a2),
    ensures
        written(a) is None ==> {
            &&& stored_after(f.op, row_number(current)) == row_number(current)
            &&& a == Action::Respond(Reply::Number(shown(row_number(current)) as i32))
        },
        written(a) is Some ==> {
            &&& written(a) == stored_after(f.op, row_number(current))
            &&& a2 == Action::Respond(Reply::Number(shown(stored_after(f.op, row_number(current))) as i32))
        },
{
}

} // verus!
