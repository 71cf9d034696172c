use chrono::{Datelike, NaiveDate};
use pds::calendar::Date;
use pds::customer::{add_customer, assign_numbers, fits_numbering, get_customers, is_unlucky, AddCustomerPhase, AddCustomerRequest, CustomerListFlow, PreCustomer};
use pds::exchange::{Action, CustomerRow, Event, NewCustomer, Reply, StoreError};

fn date(y: i32, m: u32, d: u32) -> Date {
    Date::from_days_from_ce(NaiveDate::from_ymd_opt(y, m, d).unwrap().num_days_from_ce()).unwrap()
}

fn shows_4_or_0(n: i32) -> bool {
    let s = n.to_string();
    s.contains('4') || s.contains('0')
}

#[test]
fn unlucky_numbers_show_a_4_or_a_0() {
    assert!(is_unlucky(4));
    assert!(is_unlucky(10));
    assert!(is_unlucky(0));
    assert!(is_unlucky(-4));
    assert!(is_unlucky(104));
    assert!(!is_unlucky(13));
    assert!(!is_unlucky(123));
    assert!(!is_unlucky(-17));
    assert!(is_unlucky(i32::MIN));
    assert!(is_unlucky(i32::MAX));
    for n in (-2000..2000).chain([i32::MIN, i32::MIN + 1, 999_999_999, 1_111_111_111]) {
        assert_eq!(is_unlucky(n), shows_4_or_0(n), "{}", n);
    }
}

#[test]
fn numbering_starts_at_one() {
    assert_eq!(assign_numbers(None, 5), vec![1, 2, 3, 5, 6]);
}

#[test]
fn numbering_continues_after_the_highest() {
    assert_eq!(assign_numbers(Some(8), 2), vec![9, 11]);
    assert_eq!(assign_numbers(Some(12), 3), vec![13, 15, 16]);
    assert_eq!(assign_numbers(Some(7), 0), Vec::<i32>::new());
}

#[test]
fn unlucky_candidate_is_passed_over_only_once() {
    assert_eq!(assign_numbers(Some(39), 2), vec![41, 43]);
    assert_eq!(assign_numbers(Some(102), 1), vec![104]);
}

#[test]
fn numbering_increases_and_skips_only_unlucky_numbers() {
    for latest in [None, Some(0), Some(35), Some(396), Some(-3)] {
        let ns = assign_numbers(latest, 40);
        let start = latest.map(|n| n + 1).unwrap_or(1);
        assert!(ns.windows(2).all(|w| w[0] < w[1]));
        assert!(ns[0] >= start);
        for x in start..*ns.last().unwrap() {
            if !ns.contains(&x) {
                assert!(shows_4_or_0(x), "{}", x);
            }
        }
        for &n in &ns {
            assert!(!shows_4_or_0(n) || shows_4_or_0(n - 1));
        }
    }
}

#[test]
fn numbering_must_fit() {
    assert!(!fits_numbering(Some(i32::MAX), 0));
    assert!(fits_numbering(Some(i32::MAX - 1), 0));
    assert!(!fits_numbering(Some(i32::MAX - 1), 1));
    assert!(fits_numbering(Some(i32::MAX - 3), 1));
    assert!(!fits_numbering(Some(i32::MAX - 3), 2));
    assert!(fits_numbering(None, 1000));
}

fn request(count: u64, names: &[&str], day: Date) -> AddCustomerRequest {
    AddCustomerRequest { how_much_customer: count, name: names.iter().map(|s| s.to_string()).collect(), date: day }
}

#[test]
fn adding_customers_numbers_and_stores_them() {
    let day = date(2024, 6, 8);
    let (flow, action) = add_customer(request(2, &["Ann", "Bo", "Cy"], day));
    assert_eq!(action, Action::FindLatestCustomer(day));
    assert_eq!(flow.phase, AddCustomerPhase::AwaitLatest);
    assert!(flow.accepts(&Event::LatestCustomerFound(Ok(Some(3)))));
    let (flow, action) = flow.step(Event::LatestCustomerFound(Ok(Some(3))));
    assert_eq!(
        action,
        Action::InsertCustomers(vec![
            NewCustomer { name: "Ann".to_string(), date: day, number: 5 },
            NewCustomer { name: "Bo".to_string(), date: day, number: 6 },
        ])
    );
    let (flow, action) = flow.step(Event::CustomersInserted(Ok(())));
    assert_eq!(action, Action::FetchNewestCustomers(day, 2));
    let rows = vec![
        CustomerRow { id: 11, number: 6, name: "Bo".to_string(), date: day },
        CustomerRow { id: 10, number: 5, name: "Ann".to_string(), date: day },
    ];
    let (flow, action) = flow.step(Event::CustomersFetched(Ok(rows)));
    assert_eq!(flow.phase, AddCustomerPhase::Finished);
    assert_eq!(
        action,
        Action::Respond(Reply::CreatedCustomers(vec![
            PreCustomer { id: 6, name: "Bo".to_string() },
            PreCustomer { id: 5, name: "Ann".to_string() },
        ]))
    );
}

#[test]
fn adding_to_an_empty_day_starts_at_one() {
    let day = date(2024, 6, 9);
    let (flow, _) = add_customer(request(1, &["Di"], day));
    let (_, action) = flow.step(Event::LatestCustomerFound(Ok(None)));
    assert_eq!(action, Action::InsertCustomers(vec![NewCustomer { name: "Di".to_string(), date: day, number: 1 }]));
}

#[test]
fn adding_more_customers_than_names_is_not_taken() {
    let (flow, _) = add_customer(request(3, &["Ann", "Bo"], date(2024, 6, 8)));
    assert!(!flow.accepts(&Event::LatestCustomerFound(Ok(None))));
    assert!(flow.accepts(&Event::LatestCustomerFound(Err(StoreError))));
    let (flow, action) = flow.step(Event::LatestCustomerFound(Err(StoreError)));
    assert_eq!(flow.phase, AddCustomerPhase::Finished);
    assert_eq!(action, Action::Respond(Reply::InternalServerError));
}

#[test]
fn adding_customers_store_failures() {
    let day = date(2024, 6, 8);
    let (flow, _) = add_customer(request(1, &["Ann"], day));
    let (flow, _) = flow.step(Event::LatestCustomerFound(Ok(Some(1))));
    let (flow, action) = flow.step(Event::CustomersInserted(Err(StoreError)));
    assert_eq!(flow.phase, AddCustomerPhase::Finished);
    assert_eq!(action, Action::Respond(Reply::InternalServerError));
    let (flow, _) = add_customer(request(1, &["Ann"], day));
    let (flow, _) = flow.step(Event::LatestCustomerFound(Ok(Some(1))));
    let (flow, _) = flow.step(Event::CustomersInserted(Ok(())));
    let (_, action) = flow.step(Event::CustomersFetched(Err(StoreError)));
    assert_eq!(action, Action::Respond(Reply::InternalServerError));
}

#[test]
fn listing_customers() {
    let day = date(2024, 6, 8);
    let (flow, action) = get_customers(day);
    assert_eq!(flow, CustomerListFlow::AwaitList);
    assert_eq!(action, Action::ListCustomers(day));
    let rows = vec![
        CustomerRow { id: 1, number: 1, name: "Ann".to_string(), date: day },
        CustomerRow { id: 2, number: 2, name: "Bo".to_string(), date: day },
    ];
    let (next, action) = flow.step(Event::CustomersFetched(Ok(rows)));
    assert_eq!(next, CustomerListFlow::Finished);
    assert_eq!(
        action,
        Action::Respond(Reply::Customers(vec![
            PreCustomer { id: 1, name: "Ann".to_string() },
            PreCustomer { id: 2, name: "Bo".to_string() },
        ]))
    );
    let (_, action) = flow.step(Event::CustomersFetched(Err(StoreError)));
    assert_eq!(action, Action::Respond(Reply::InternalServerError));
}

#[test]
fn consecutive_numbers_differ_by_one_or_two() {
    for latest in [None, Some(0), Some(38), Some(399), Some(-7)] {
        let ns = assign_numbers(latest, 60);
        assert!(ns.windows(2).all(|w| w[1] - w[0] == 1 || w[1] - w[0] == 2), "{:?}", latest);
    }
    assert_eq!(assign_numbers(Some(2), 2), vec![3, 5]);
}

#[test]
fn added_customers_come_last_in_the_listing() {
    let existing = vec![1, 2, 3];
    let added = assign_numbers(Some(3), 3);
    assert_eq!(added, vec![5, 6, 7]);
    let mut listing: Vec<i32> = existing.iter().chain(added.iter()).copied().collect();
    listing.sort();
    assert_eq!(&listing[listing.len() - 3..], &added[..]);
    let newest: Vec<i32> = listing.iter().rev().take(3).copied().collect();
    assert_eq!(newest, vec![7, 6, 5]);
}
