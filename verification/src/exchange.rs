use vstd::prelude::*;
use crate::calendar::Date;
use crate::customer::PreCustomer;
use crate::session::SessionCookie;

verus! {

/// A database operation that failed; which one and why does not change what is answered.
#[derive(Clone, Copy, Debug, PartialEq, Eq)]
pub struct StoreError;

/// A stored counter: the number reached on one day.
#[derive(Clone, Copy, Debug, PartialEq, Eq)]
pub struct CounterRow {
    pub id: i32,
    pub date: Date,
    pub number: i32,
}

/// A stored day without service.
#[derive(Clone, Copy, Debug, PartialEq, Eq)]
pub struct UnableDateRow {
    pub id: i32,
    pub date: Date,
}

/// A stored customer: the queue number given to a name on a day.
#[derive(Debug, PartialEq, Eq)]
pub struct CustomerRow {
    pub id: i32,
    pub number: i32,
    pub name: String,
    pub date: Date,
}

/// A customer to be stored.
#[derive(Debug, PartialEq, Eq)]
pub struct NewCustomer {
    pub name: String,
    pub date: Date,
    pub number: i32,
}

/// What a request is answered.
#[derive(Debug, PartialEq, Eq)]
pub enum Reply {
    /// Success with an empty body.
    Success,
    /// Success that also sets the session cookie.
    SessionOpened(SessionCookie),
    /// Success with a number as body.
    Number(i32),
    /// Success with a list of customers as body.
    Customers(Vec<PreCustomer>),
    /// Customers were created; the body lists them.
    CreatedCustomers(Vec<PreCustomer>),
    /// Success with a list of dates as body.
    Dates(Vec<Date>),
    /// Refused: a malformed request, wrong credentials, or no open session ("Not logged in").
    BadRequest,
    InternalServerError,
}

/// What the program must do next for a request in progress.
#[derive(Debug, PartialEq, Eq)]
pub enum Action {
    /// Send the reply; the request is done.
    Respond(Reply),
    /// Look the session identifier up among open sessions; answer with `Event::SessionChecked`.
    LookupSession(String),
    /// Record a new open session; answer with `Event::SessionStored`.
    StoreSession(String),
    /// Find the counter of the day; answer with `Event::CounterFound`.
    FindCounter(Date),
    /// Write the row's number into the stored row with its id; answer with `Event::CounterSaved`.
    UpdateCounter(CounterRow),
    /// Store a new counter for the day; answer with `Event::CounterSaved`.
    InsertCounter(Date, i32),
    /// Find a stored day without service equal to the date; answer with `Event::UnableDateFound`.
    FindUnableDate(Date),
    /// Delete the day without service with this id; answer with `Event::UnableDateWritten`.
    DeleteUnableDate(i32),
    /// Store a day without service; answer with `Event::UnableDateWritten`.
    InsertUnableDate(Date),
    /// Find the highest customer number of the day; answer with `Event::LatestCustomerFound`.
    FindLatestCustomer(Date),
    /// Store the customers; answer with `Event::CustomersInserted`.
    InsertCustomers(Vec<NewCustomer>),
    /// Fetch at most this many customers of the day, highest number first;
    /// answer with `Event::CustomersFetched`.
    FetchNewestCustomers(Date, u64),
    /// Fetch all customers of the day, lowest number first; answer with `Event::CustomersFetched`.
    ListCustomers(Date),
    /// Fetch the stored days without service from this date on; answer with `Event::UnableDatesListed`.
    ListUnableDatesFrom(Date),
}

/// What came back from the last action.
#[derive(Debug, PartialEq, Eq)]
pub enum Event {
    SessionChecked(bool),
    SessionStored,
    CounterFound(Result<Option<CounterRow>, StoreError>),
    /// The number that the stored counter holds after the write.
    CounterSaved(Result<i32, StoreError>),
    UnableDateFound(Result<Option<UnableDateRow>, StoreError>),
    UnableDateWritten(Result<(), StoreError>),
    /// The number of the day's customer with the highest number, if there is one.
    LatestCustomerFound(Result<Option<i32>, StoreError>),
    CustomersInserted(Result<(), StoreError>),
    CustomersFetched(Result<Vec<CustomerRow>, StoreError>),
    UnableDatesListed(Result<Vec<Date>, StoreError>),
}

} // verus!
