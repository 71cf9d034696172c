use vstd::prelude::*;
use crate::counter::CounterFlow;
use crate::customer::{AddCustomerFlow, CustomerListFlow};
use crate::exchange::{Action, Event};
use crate::service_date::{DateToggleFlow, UpcomingDatesFlow};
use crate::session::{LoginFlow, SessionCheckFlow};

verus! {

/// Any request in progress. The program performs each action, hands back what
/// came of it, and goes on until the action is a reply.
#[derive(Debug, PartialEq, Eq)]
pub enum Flow {
    Login(LoginFlow),
    SessionCheck(SessionCheckFlow),
    Counter(CounterFlow),
    ToggleDates(DateToggleFlow),
    UpcomingDates(UpcomingDatesFlow),
    AddCustomer(AddCustomerFlow),
    ListCustomers(CustomerListFlow),
}

impl Flow {
    /// Whether the request waits for this event (and can take it).
    pub open spec fn can_take(&self, e: Event) -> bool {
        match self {
            Flow::Login(f) => f.can_take(e),
            Flow::SessionCheck(f) => f.can_take(e),
            Flow::Counter(f) => f.can_take(e),
            Flow::ToggleDates(f) => f.can_take(e),
            Flow::UpcomingDates(f) => f.can_take(e),
            Flow::AddCustomer(f) => f.can_take(e),
            Flow::ListCustomers(f) => f.can_take(e),
        }
    }

    pub fn accepts(&self, e: &Event) -> (b: bool)
        ensures
            b == self.can_take(*e),
    {
        match self {
            Flow::Login(f) => f.accepts(e),
            Flow::SessionCheck(f) => f.accepts(e),
            Flow::Counter(f) => f.accepts(e),
            Flow::ToggleDates(f) => f.accepts(e),
            Flow::UpcomingDates(f) => f.accepts(e),
            Flow::AddCustomer(f) => f.accepts(e),
            Flow::ListCustomers(f) => f.accepts(e),
        }
    }

    /// The request stays of its kind, and takes the event as that kind says.
    pub open spec fn takes(self, e: Event, next: Flow, a: Action) -> bool {
        match self {
            Flow::Login(f) => next matches Flow::Login(n) && f.takes(e, n, a),
            Flow::SessionCheck(f) => next matches Flow::SessionCheck(n) && f.takes(e, n, a),
            Flow::Counter(f) => next matches Flow::Counter(n) && f.takes(e, n, a),
            Flow::ToggleDates(f) => next matches Flow::ToggleDates(n) && f.takes(e, n, a),
            Flow::UpcomingDates(f) => next matches Flow::UpcomingDates(n) && f.takes(e, n, a),
            Flow::AddCustomer(f) => next matches Flow::AddCustomer(n) && f.takes(e, n, a),
            Flow::ListCustomers(f) => next matches Flow::ListCustomers(n) && f.takes(e, n, a),
        }
    }

    /// Takes the next event of whatever request is in progress.
    pub fn step(self, e: Event) -> (r: (Flow, Action))
        requires
            self.can_take(e),
        ensures
            self.takes(e, r.0, r.1),
    {
        match self {
            Flow::Login(f) => {
                let (n, a) = f.step(e);
                (Flow::Login(n), a)
            },
            Flow::SessionCheck(f) => {
                let (n, a) = f.step(e);
                (Flow::SessionCheck(n), a)
            },
            Flow::Counter(f) => {
                let (n, a) = f.step(e);
                (Flow::Counter(n), a)
            },
            Flow::ToggleDates(f) => {
                let (n, a) = f.step(e);
                (Flow::ToggleDates(n), a)
            },
            Flow::UpcomingDates(f) => {
                let (n, a) = f.step(e);
                (Flow::UpcomingDates(n), a)
            },
            Flow::AddCustomer(f) => {
                let (n, a) = f.step(e);
                (Flow::AddCustomer(n), a)
            },
            Flow::ListCustomers(f) => {
                let (n, a) = f.step(e);
                (Flow::ListCustomers(n), a)
            },
        }
    }
}

} // verus!
