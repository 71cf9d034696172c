//! Decisions of a small queue-number and booking service: administrator
//! sessions, the day's counter, the days without service and the customer list.
//! Every handler is a step function from what the store answered to what to do
//! next; the program around the library performs the I/O and feeds the answers back.

pub mod calendar;
pub mod exchange;
pub mod session;
pub mod customer;
pub mod counter;
pub mod service_date;
pub mod flow;
