use vstd::prelude::*;
use crate::calendar::Date;
use crate::exchange::{Action, CustomerRow, Event, NewCustomer, Reply};

verus! {

/// A customer as listed to clients: the queue number and the name.
#[derive(Debug, PartialEq, Eq)]
pub struct PreCustomer {
    pub id: i32,
    pub name: String,
}

/// Customers to be added to a day's queue, one name each.
#[derive(Debug, PartialEq, Eq)]
pub struct AddCustomerRequest {
    pub how_much_customer: u64,
    pub name: Vec<String>,
    pub date: Date,
}

/// The day whose queue is asked for.
#[derive(Clone, Copy, Debug, PartialEq, Eq)]
pub struct GetCustomersRequest {
    pub date: Date,
}

/// Whether the decimal digits of `n` include the digit `d`.
pub open spec fn has_digit(n: nat, d: nat) -> bool
    decreases n,
{
    if n < 10 {
        n == d
    } else {
        n % 10 == d || has_digit(n / 10, d)
    }
}

pub open spec fn magnitude(n: int) -> nat {
    if n < 0 { (-n) as nat } else { n as nat }
}

/// A number whose decimal form shows a 4 or a 0 is unlucky.
pub open spec fn unlucky(n: int) -> bool {
    has_digit(magnitude(n), 4) || has_digit(magnitude(n), 0)
}

/// The number the next customer is given when the running number stands at
/// `candidate`: an unlucky candidate is passed over once, for the number after it.
pub open spec fn given(candidate: int) -> int {
    if unlucky(candidate) { candidate + 1 } else { candidate }
}

/// The numbers given to `count` customers in turn, the running number starting at `start`.
pub open spec fn numbers_from(start: int, count: nat) -> Seq<int>
    decreases count,
{
    if count == 0 {
        Seq::empty()
    } else {
        seq![given(start)] + numbers_from(given(start) + 1, (count - 1) as nat)
    }
}

/// Where the running number stands after `count` customers.
pub open spec fn numbering_end(start: int, count: nat) -> int
    decreases count,
{
    if count == 0 {
        start
    } else {
        numbering_end(given(start) + 1, (count - 1) as nat)
    }
}

/// The running number of a day starts one past its highest number, or at 1.
pub open spec fn numbering_start(latest: Option<i32>) -> int {
    match latest {
        Some(n) => n + 1,
        None => 1,
    }
}

/// Numbering `count` customers after `latest` stays within `i32`.
pub open spec fn numbering_fits(latest: Option<i32>, count: nat) -> bool {
    &&& numbering_start(latest) <= i32::MAX
    &&& numbering_end(numbering_start(latest), count) <= i32::MAX
}

proof fn lemma_numbering_grows(start: int, count: nat)
    ensures
        numbering_end(start, count) >= start + count,
        numbers_from(start, count).len() == count,
        count > 0 ==> given(start) < numbering_end(start, count),
        forall|i: int| 0 <= i < count ==> start <= #[trigger] numbers_from(start, count)[i] < numbering_end(start, count),
    decreases count,
{
    if count > 0 {
        lemma_numbering_grows(given(start) + 1, (count - 1) as nat);
        let rest = numbers_from(given(start) + 1, (count - 1) as nat);
        assert forall|i: int| 0 <= i < count implies start <= #[trigger] numbers_from(start, count)[i] < numbering_end(start, count) by {
            if i > 0 {
                assert(numbers_from(start, count)[i] == rest[i - 1]);
            }
        }
    }
}

/// The numbers given in one request strictly increase, and every one of them is
/// above the day's highest number before the request.
pub proof fn numbers_increase(latest: Option<i32>, count: nat)
    ensures
        forall|i: int, j: int| 0 <= i < j < count ==>
            #[trigger] numbers_from(numbering_start(latest), count)[i] < #[trigger] numbers_from(numbering_start(latest), count)[j],
        forall|i: int| 0 <= i < count ==> match latest {
            Some(n) => #[trigger] numbers_from(numbering_start(latest), count)[i] > n,
            None => numbers_from(numbering_start(latest), count)[i] >= 1,
        },
{
    lemma_numbers_increase(numbering_start(latest), count);
    lemma_numbering_grows(numbering_start(latest), count);
}

proof fn lemma_numbers_increase(start: int, count: nat)
    ensures
        forall|i: int, j: int| 0 <= i < j < count ==>
            #[trigger] numbers_from(start, count)[i] < #[trigger] numbers_from(start, count)[j],
    decreases count,
{
    if count > 0 {
        let g = given(start);
        let rest = numbers_from(g + 1, (count - 1) as nat);
        lemma_numbers_increase(g + 1, (count - 1) as nat);
        lemma_numbering_grows(g + 1, (count - 1) as nat);
        let ns = numbers_from(start, count);
        assert forall|i: int, j: int| 0 <= i < j < count implies #[trigger] ns[i] < #[trigger] ns[j] by {
            assert(ns[j] == rest[j - 1]);
            if i > 0 {
                assert(ns[i] == rest[i - 1]);
            }
        }
    }
}

/// The running number starts right after the day's highest number, at 1 for a day
/// without customers: the first number given is that candidate, or the number after
/// it where the candidate is unlucky; every number after the day's highest and
/// before the first one given is unlucky; and the first is above the day's highest.
pub proof fn first_number_follows_latest(latest: Option<i32>, count: nat)
    requires
        count > 0,
    ensures
        ({
            let base = match latest {
                Some(m) => m + 1,
                None => 1int,
            };
            let first = numbers_from(numbering_start(latest), count)[0];
            &&& first == if unlucky(base) { base + 1 } else { base }
            &&& forall|x: int| base <= x < first ==> unlucky(x)
            &&& latest matches Some(m) ==> first > m
            &&& latest is None ==> first >= 1
        }),
{
}

/// Consecutive numbers given in one request differ by one, or by two where an
/// unlucky candidate was passed over between them.
pub proof fn numbers_step_by_one_or_two(start: int, count: nat)
    ensures
        forall|i: int| 0 <= i < count - 1 ==> {
            let d = #[trigger] numbers_from(start, count)[i + 1] - numbers_from(start, count)[i];
            d == 1 || d == 2
        },
    decreases count,
{
    lemma_numbering_grows(start, count);
    if count > 1 {
        let g = given(start);
        let ns = numbers_from(start, count);
        let rest = numbers_from(g + 1, (count - 1) as nat);
        numbers_step_by_one_or_two(g + 1, (count - 1) as nat);
        lemma_numbering_grows(g + 1, (count - 1) as nat);
        assert(rest[0] == given(g + 1));
        assert forall|i: int| 0 <= i < count - 1 implies {
            let d = #[trigger] ns[i + 1] - ns[i];
            d == 1 || d == 2
        } by {
            assert(ns[i + 1] == rest[i]);
            if i > 0 {
                let j = i - 1;
                assert(ns[i] == rest[j]);
                let dj = rest[j + 1] - rest[j];
                assert(dj == 1 || dj == 2);
            } else {
                assert(ns[0] == g);
            }
        }
    }
}

pub open spec fn strictly_increasing(s: Seq<int>) -> bool {
    forall|i: int, j: int| 0 <= i < j < s.len() ==> #[trigger] s[i] < #[trigger] s[j]
}

proof fn lemma_increasing_same_elements_equal(a: Seq<int>, b: Seq<int>)
    requires
        strictly_increasing(a),
        strictly_increasing(b),
        forall|x: int| a.contains(x) <==> b.contains(x),
    ensures
        a == b,
    decreases a.len(),
{
    if a.len() == 0 {
        if b.len() > 0 {
            assert(b.contains(b[0]));
        }
        assert(b =~= a);
    } else {
        assert(a.contains(a[0]));
        if b.len() == 0 {
            assert(false);
        }
        assert(b.contains(b[0]));
        let ka = choose|k: int| 0 <= k < b.len() && b[k] == a[0];
        let kb = choose|k: int| 0 <= k < a.len() && a[k] == b[0];
        if ka > 0 {
            assert(b[0] < b[ka]);
        }
        if kb > 0 {
            assert(a[0] < a[kb]);
        }
        assert(a[0] == b[0]);
        let ta = a.drop_first();
        let tb = b.drop_first();
        assert forall|i: int, j: int| 0 <= i < j < ta.len() implies #[trigger] ta[i] < #[trigger] ta[j] by {
            assert(ta[i] == a[i + 1] && ta[j] == a[j + 1]);
        }
        assert forall|i: int, j: int| 0 <= i < j < tb.len() implies #[trigger] tb[i] < #[trigger] tb[j] by {
            assert(tb[i] == b[i + 1] && tb[j] == b[j + 1]);
        }
        assert forall|x: int| ta.contains(x) implies tb.contains(x) by {
            let i = choose|i: int| 0 <= i < ta.len() && ta[i] == x;
            assert(a[i + 1] == x);
            assert(a[0] < a[i + 1]);
            assert(a.contains(x));
            let k = choose|k: int| 0 <= k < b.len() && b[k] == x;
            assert(k != 0);
            assert(tb[k - 1] == x);
        }
        assert forall|x: int| tb.contains(x) implies ta.contains(x) by {
            let i = choose|i: int| 0 <= i < tb.len() && tb[i] == x;
            assert(b[i + 1] == x);
            assert(b[0] < b[i + 1]);
            assert(b.contains(x));
            let k = choose|k: int| 0 <= k < a.len() && a[k] == x;
            assert(k != 0);
            assert(ta[k - 1] == x);
        }
        lemma_increasing_same_elements_equal(ta, tb);
        assert(a =~= seq![a[0]] + ta);
        assert(b =~= seq![b[0]] + tb);
    }
}

/// The first position from `i` on whose number is at least `start`; the length where there is none.
pub open spec fn first_at_least(listing: Seq<int>, start: int, i: int) -> int
    decreases listing.len() - i,
{
    if i >= listing.len() {
        listing.len() as int
    } else if listing[i] >= start {
        i
    } else {
        first_at_least(listing, start, i + 1)
    }
}

proof fn lemma_first_at_least(listing: Seq<int>, start: int, i: int)
    requires
        0 <= i <= listing.len(),
        strictly_increasing(listing),
    ensures
        i <= first_at_least(listing, start, i) <= listing.len(),
        forall|k: int| i <= k < first_at_least(listing, start, i) ==> #[trigger] listing[k] < start,
        forall|k: int| first_at_least(listing, start, i) <= k < listing.len() ==> #[trigger] listing[k] >= start,
    decreases listing.len() - i,
{
    if i < listing.len() {
        if listing[i] >= start {
            assert forall|k: int| i <= k < listing.len() implies #[trigger] listing[k] >= start by {
                if k > i {
                    assert(listing[i] < listing[k]);
                }
            }
        } else {
            lemma_first_at_least(listing, start, i + 1);
        }
    }
}

/// Customers just added come last when their day is listed. Where the day's other
/// customers have numbers no higher than its highest number `latest` (none where
/// there is no `latest`), a listing of the day by number, lowest first, ends with
/// exactly the numbers given to the new customers, in the order they were given;
/// and the newest `count` customers, highest first, are the new ones in reverse.
/// These are the numbers `AddCustomerFlow` stores (its `takes`), and the newest
/// are what it fetches and sends as created.
pub proof fn added_customers_come_last(existing: Set<int>, latest: Option<i32>, count: nat, listing: Seq<int>)
    requires
        forall|e: int| #[trigger] existing.contains(e) ==> (latest matches Some(m) && e <= m),
        strictly_increasing(listing),
        forall|x: int| #[trigger] listing.contains(x) <==> (existing.contains(x)
            || numbers_from(numbering_start(latest), count).contains(x)),
    ensures
        listing.len() >= count,
        listing.skip(listing.len() - count) == numbers_from(numbering_start(latest), count),
        listing.reverse().take(count as int) == numbers_from(numbering_start(latest), count).reverse(),
{
    let start = numbering_start(latest);
    let ns = numbers_from(start, count);
    lemma_numbering_grows(start, count);
    lemma_numbers_increase(start, count);
    lemma_first_at_least(listing, start, 0);
    let j = first_at_least(listing, start, 0);
    let tail = listing.skip(j);
    assert forall|i: int, k: int| 0 <= i < k < tail.len() implies #[trigger] tail[i] < #[trigger] tail[k] by {
        assert(tail[i] == listing[i + j] && tail[k] == listing[k + j]);
    }
    assert forall|x: int| tail.contains(x) implies ns.contains(x) by {
        let i = choose|i: int| 0 <= i < tail.len() && tail[i] == x;
        assert(listing[i + j] == x);
        assert(listing.contains(x));
        assert(x >= start);
        if existing.contains(x) {
            assert(false);
        }
    }
    assert forall|x: int| ns.contains(x) implies tail.contains(x) by {
        let i = choose|i: int| 0 <= i < ns.len() && ns[i] == x;
        assert(start <= ns[i]);
        assert(listing.contains(x));
        let p = choose|p: int| 0 <= p < listing.len() && listing[p] == x;
        if p < j {
            assert(listing[p] < start);
        }
        assert(tail[p - j] == x);
    }
    assert(strictly_increasing(ns));
    lemma_increasing_same_elements_equal(tail, ns);
    assert(listing.skip(listing.len() - count) == tail);
    assert(listing.reverse().take(count as int) =~= ns.reverse());
}

/// Only unlucky numbers are passed over: every number from the first candidate up
/// to where the running number ends that no customer was given is unlucky.
pub proof fn only_unlucky_numbers_skipped(start: int, count: nat, x: int)
    requires
        start <= x < numbering_end(start, count),
        !numbers_from(start, count).contains(x),
    ensures
        unlucky(x),
    decreases count,
{
    if count == 0 {
    } else {
        let g = given(start);
        let ns = numbers_from(start, count);
        let rest = numbers_from(g + 1, (count - 1) as nat);
        assert(ns[0] == g);
        if x == g {
            assert(ns.contains(x));
        } else if x < g {
        } else {
            assert forall|k: int| 0 <= k < rest.len() implies rest[k] != x by {
                assert(ns[k + 1] == rest[k]);
            }
            only_unlucky_numbers_skipped(g + 1, (count - 1) as nat, x);
        }
    }
}

/// Every number given either is not unlucky or comes right after an unlucky one:
/// an unlucky candidate is passed over only once.
pub proof fn given_numbers_avoid_unlucky_once(start: int, count: nat)
    ensures
        forall|i: int| 0 <= i < count ==>
            !unlucky(#[trigger] numbers_from(start, count)[i]) || unlucky(numbers_from(start, count)[i] - 1),
    decreases count,
{
    lemma_numbering_grows(start, count);
    if count > 0 {
        let g = given(start);
        let ns = numbers_from(start, count);
        let rest = numbers_from(g + 1, (count - 1) as nat);
        given_numbers_avoid_unlucky_once(g + 1, (count - 1) as nat);
        assert forall|i: int| 0 <= i < count implies !unlucky(#[trigger] ns[i]) || unlucky(ns[i] - 1) by {
            if i > 0 {
                assert(ns[i] == rest[i - 1]);
            }
        }
    }
}

/// Whether `n` is unlucky, read off its decimal digits.
pub fn is_unlucky(n: i32) -> (b: bool)
    ensures
        b == unlucky(n as int),
{
    let wide: i64 = n as i64;
    let mut m: u64 = if wide < 0 { (0 - wide) as u64 } else { wide as u64 };
    assert(m as nat == magnitude(n as int));
    while m >= 10
        invariant
            unlucky(n as int) == (has_digit(m as nat, 4) || has_digit(m as nat, 0)),
        decreases m,
    {
        if m % 10 == 4 || m % 10 == 0 {
            return true;
        }
        m = m / 10;
    }
    m == 4 || m == 0
}

/// The numbers given to `count` customers when the day's highest number is
/// `latest` (`None`: the day has no customer yet).
pub fn assign_numbers(latest: Option<i32>, count: u64) -> (ns: Vec<i32>)
    requires
        numbering_fits(latest, count as nat),
    ensures
        ns@.len() == count,
        forall|i: int| 0 <= i < count ==> ns@[i] as int == #[trigger] numbers_from(numbering_start(latest), count as nat)[i],
        count > 0 ==> ({
            let base = match latest {
                Some(m) => m + 1,
                None => 1int,
            };
            ns@[0] as int == if unlucky(base) { base + 1 } else { base }
        }),
{
    proof {
        if count > 0 {
            first_number_follows_latest(latest, count as nat);
        }
    }
    let ghost start = numbering_start(latest);
    let ghost total = count as nat;
    proof {
        lemma_numbering_grows(start, total);
    }
    let mut running: i32 = match latest {
        Some(n) => n + 1,
        None => 1,
    };
    let mut ns: Vec<i32> = Vec::new();
    let mut i: u64 = 0;
    while i < count
        invariant
            i <= count,
            total == count as nat,
            ns@.len() == i,
            numbering_end(start, total) == numbering_end(running as int, (total - i) as nat),
            numbering_end(start, total) <= i32::MAX,
            numbers_from(start, total) == ns@.map_values(|x: i32| x as int) + numbers_from(running as int, (total - i) as nat),
        decreases count - i,
    {
        let ghost k = (total - i) as nat;
        let ghost cand = running as int;
        proof {
            assert(k > 0);
            lemma_numbering_grows(cand, k);
            assert(numbering_end(cand, k) == numbering_end(given(cand) + 1, (k - 1) as nat));
        }
        if is_unlucky(running) {
            running = running + 1;
        }
        assert(running as int == given(cand));
        let ghost before = ns@.map_values(|x: i32| x as int);
        ns.push(running);
        proof {
            assert(ns@.map_values(|x: i32| x as int) =~= before.push(running as int));
            let rest = numbers_from(given(cand) + 1, (k - 1) as nat);
            assert(numbers_from(cand, k) == seq![given(cand)] + rest);
            assert(before + numbers_from(cand, k) =~= before.push(running as int) + rest);
        }
        running = running + 1;
        i = i + 1;
    }
    proof {
        assert(ns@.map_values(|x: i32| x as int).len() == total);
        assert forall|j: int| 0 <= j < count implies ns@[j] as int == #[trigger] numbers_from(start, total)[j] by {
            assert(ns@.map_values(|x: i32| x as int)[j] == ns@[j] as int);
        }
    }
    ns
}

/// Whether numbering `count` customers after `latest` stays within `i32`.
pub fn fits_numbering(latest: Option<i32>, count: u64) -> (b: bool)
    ensures
        b == numbering_fits(latest, count as nat),
{
    let ghost start = numbering_start(latest);
    let ghost total = count as nat;
    let mut running: i64 = match latest {
        Some(n) => n as i64 + 1,
        None => 1,
    };
    if running > i32::MAX as i64 {
        return false;
    }
    let mut i: u64 = 0;
    while i < count
        invariant
            i <= count,
            total == count as nat,
            start == numbering_start(latest),
            start <= i32::MAX,
            i32::MIN < running <= i32::MAX,
            numbering_end(start, total) == numbering_end(running as int, (total - i) as nat),
        decreases count - i,
    {
        let ghost k = (total - i) as nat;
        let ghost cand = running as int;
        assert(numbering_end(cand, k) == numbering_end(given(cand) + 1, (k - 1) as nat));
        if is_unlucky(running as i32) {
            running = running + 1;
        }
        running = running + 1;
        i = i + 1;
        if running > i32::MAX as i64 {
            proof {
                lemma_numbering_grows(running as int, (total - i) as nat);
            }
            return false;
        }
    }
    true
}

/// The listing of stored customers: each one's number and name, in the order given.
pub open spec fn listed(rows: Seq<CustomerRow>) -> Seq<PreCustomer> {
    rows.map_values(|r: CustomerRow| PreCustomer { id: r.number, name: r.name })
}

fn pre_customers(rows: &Vec<CustomerRow>) -> (v: Vec<PreCustomer>)
    ensures
        v@ == listed(rows@),
{
    let mut v: Vec<PreCustomer> = Vec::new();
    let mut i: usize = 0;
    while i < rows.len()
        invariant
            i <= rows.len(),
            v@ == listed(rows@.subrange(0, i as int)),
        decreases rows.len() - i,
    {
        let row = &rows[i];
        v.push(PreCustomer { id: row.number, name: row.name.clone() });
        assert(rows@.subrange(0, i + 1) =~= rows@.subrange(0, i as int).push(rows@[i as int]));
        i = i + 1;
    }
    assert(rows@.subrange(0, rows.len() as int) =~= rows@);
    v
}

/// `v` holds the first `count` names, each with the date and the number given to it in turn.
pub open spec fn are_new_customers(v: Seq<NewCustomer>, names: Seq<String>, date: Date, numbers: Seq<int>, count: nat) -> bool {
    &&& v.len() == count
    &&& forall|i: int| 0 <= i < count ==> {
        &&& (#[trigger] v[i]).name == names[i]
        &&& v[i].date == date
        &&& v[i].number as int == numbers[i]
    }
}

fn new_customers(request: &AddCustomerRequest, latest: Option<i32>) -> (v: Vec<NewCustomer>)
    requires
        request.how_much_customer <= request.name@.len(),
        numbering_fits(latest, request.how_much_customer as nat),
    ensures
        are_new_customers(v@, request.name@, request.date, numbers_from(numbering_start(latest), request.how_much_customer as nat), request.how_much_customer as nat),
{
    let count: u64 = request.how_much_customer;
    let numbers = assign_numbers(latest, count);
    let mut v: Vec<NewCustomer> = Vec::new();
    let mut i: usize = 0;
    while i < numbers.len()
        invariant
            i <= numbers.len(),
            numbers@.len() == count,
            count <= request.name@.len(),
            v@.len() == i,
            forall|j: int| 0 <= j < count ==> numbers@[j] as int == #[trigger] numbers_from(numbering_start(latest), count as nat)[j],
            forall|j: int| 0 <= j < i ==> {
                &&& (#[trigger] v@[j]).name == request.name@[j]
                &&& v@[j].date == request.date
                &&& v@[j].number == numbers@[j]
            },
        decreases numbers.len() - i,
    {
        v.push(NewCustomer { name: request.name[i].clone(), date: request.date, number: numbers[i] });
        i = i + 1;
    }
    v
}

/// Where a request to add customers stands.
#[derive(Clone, Copy, Debug, PartialEq, Eq)]
pub enum AddCustomerPhase {
    AwaitLatest,
    AwaitInsert,
    AwaitFetch,
    Finished,
}

/// A request to add customers in progress.
#[derive(Debug, PartialEq, Eq)]
pub struct AddCustomerFlow {
    pub request: AddCustomerRequest,
    pub phase: AddCustomerPhase,
}

pub open spec fn same_request(a: AddCustomerRequest, b: AddCustomerRequest) -> bool {
    a.how_much_customer == b.how_much_customer && a.name@ == b.name@ && a.date == b.date
}

/// Starts adding customers to a day's queue; anyone may ask. The day's highest number is looked up first.
pub fn add_customer(request: AddCustomerRequest) -> (r: (AddCustomerFlow, Action))
    ensures
        same_request(r.0.request, request),
        r.0.phase is AwaitLatest,
        r.1 == Action::FindLatestCustomer(request.date),
{
    let date = request.date;
    (AddCustomerFlow { request, phase: AddCustomerPhase::AwaitLatest }, Action::FindLatestCustomer(date))
}

impl AddCustomerFlow {
    /// The events the flow waits for. There must be a name for every customer
    /// counted, and the numbers given must stay within `i32`; the service does not
    /// survive either failing.
    pub open spec fn can_take(&self, e: Event) -> bool {
        match self.phase {
            AddCustomerPhase::AwaitLatest => match e {
                Event::LatestCustomerFound(Ok(latest)) => {
                    &&& self.request.how_much_customer <= self.request.name@.len()
                    &&& numbering_fits(latest, self.request.how_much_customer as nat)
                },
                Event::LatestCustomerFound(Err(_)) => true,
                _ => false,
            },
            AddCustomerPhase::AwaitInsert => e is CustomersInserted,
            AddCustomerPhase::AwaitFetch => e is CustomersFetched,
            AddCustomerPhase::Finished => false,
        }
    }

    pub fn accepts(&self, e: &Event) -> (b: bool)
        ensures
            b == self.can_take(*e),
    {
        match self.phase {
            AddCustomerPhase::AwaitLatest => match e {
                Event::LatestCustomerFound(Ok(latest)) => {
                    self.request.how_much_customer <= self.request.name.len() as u64
                        && fits_numbering(*latest, self.request.how_much_customer)
                },
                Event::LatestCustomerFound(Err(_)) => true,
                _ => false,
            },
            AddCustomerPhase::AwaitInsert => matches!(e, Event::CustomersInserted(_)),
            AddCustomerPhase::AwaitFetch => matches!(e, Event::CustomersFetched(_)),
            AddCustomerPhase::Finished => false,
        }
    }

    pub open spec fn takes(self, e: Event, next: AddCustomerFlow, a: Action) -> bool {
        let count: u64 = self.request.how_much_customer;
        &&& same_request(next.request, self.request)
        &&& match self.phase {
            AddCustomerPhase::AwaitLatest => match e {
                Event::LatestCustomerFound(Ok(latest)) => {
                    &&& next.phase is AwaitInsert
                    &&& a matches Action::InsertCustomers(v)
                    &&& are_new_customers(v@, self.request.name@, self.request.date,
                        numbers_from(numbering_start(latest), count as nat), count as nat)
                },
                _ => next.phase is Finished && a == Action::Respond(Reply::InternalServerError),
            },
            AddCustomerPhase::AwaitInsert => match e {
                Event::CustomersInserted(Ok(())) => next.phase is AwaitFetch
                    && a == Action::FetchNewestCustomers(self.request.date, count),
                _ => next.phase is Finished && a == Action::Respond(Reply::InternalServerError),
            },
            _ => next.phase is Finished && match e {
                Event::CustomersFetched(Ok(rows)) => a matches Action::Respond(Reply::CreatedCustomers(v)) && v@ == listed(rows@),
                _ => a == Action::Respond(Reply::InternalServerError),
            },
        }
    }

    /// Takes the next event: the customers are numbered on from the day's highest
    /// number, passing over unlucky numbers, and stored; then the day's newest
    /// customers, as many as were added, are fetched and sent as created. A failed
    /// store operation is answered with an internal server error.
    pub fn step(self, e: Event) -> (r: (AddCustomerFlow, Action))
        requires
            self.can_take(e),
        ensures
            self.takes(e, r.0, r.1),
    {
        let count: u64 = self.request.how_much_customer;
        let date = self.request.date;
        match self.phase {
            AddCustomerPhase::AwaitLatest => match e {
                Event::LatestCustomerFound(Ok(latest)) => {
                    let v = new_customers(&self.request, latest);
                    (AddCustomerFlow { phase: AddCustomerPhase::AwaitInsert, ..self }, Action::InsertCustomers(v))
                },
                _ => (AddCustomerFlow { phase: AddCustomerPhase::Finished, ..self }, Action::Respond(Reply::InternalServerError)),
            },
            AddCustomerPhase::AwaitInsert => match e {
                Event::CustomersInserted(Ok(())) => (AddCustomerFlow { phase: AddCustomerPhase::AwaitFetch, ..self }, Action::FetchNewestCustomers(date, count)),
                _ => (AddCustomerFlow { phase: AddCustomerPhase::Finished, ..self }, Action::Respond(Reply::InternalServerError)),
            },
            _ => {
                let finished = AddCustomerFlow { phase: AddCustomerPhase::Finished, ..self };
                match e {
                    Event::CustomersFetched(Ok(rows)) => (finished, Action::Respond(Reply::CreatedCustomers(pre_customers(&rows)))),
                    _ => (finished, Action::Respond(Reply::InternalServerError)),
                }
            },
        }
    }
}

/// A listing of a day's queue in progress.
#[derive(Clone, Copy, Debug, PartialEq, Eq)]
pub enum CustomerListFlow {
    AwaitList,
    Finished,
}

/// Starts listing a day's customers, lowest number first; anyone may ask.
pub fn get_customers(date: Date) -> (r: (CustomerListFlow, Action))
    ensures
        r.0 is AwaitList,
        r.1 == Action::ListCustomers(date),
{
    (CustomerListFlow::AwaitList, Action::ListCustomers(date))
}

impl CustomerListFlow {
    pub open spec fn can_take(&self, e: Event) -> bool {
        self is AwaitList && e is CustomersFetched
    }

    pub fn accepts(&self, e: &Event) -> (b: bool)
        ensures
            b == self.can_take(*e),
    {
        matches!(self, CustomerListFlow::AwaitList) && matches!(e, Event::CustomersFetched(_))
    }

    pub open spec fn takes(self, e: Event, next: CustomerListFlow, a: Action) -> bool {
        &&& next is Finished
        &&& match e {
            Event::CustomersFetched(Ok(rows)) => a matches Action::Respond(Reply::Customers(v)) && v@ == listed(rows@),
            _ => a == Action::Respond(Reply::InternalServerError),
        }
    }

    /// The stored customers are listed by number and name, in the order the store gave.
    pub fn step(self, e: Event) -> (r: (CustomerListFlow, Action))
        requires
            self.can_take(e),
        ensures
            self.takes(e, r.0, r.1),
    {
        match e {
            Event::CustomersFetched(Ok(rows)) => (CustomerListFlow::Finished, Action::Respond(Reply::Customers(pre_customers(&rows)))),
            _ => (CustomerListFlow::Finished, Action::Respond(Reply::InternalServerError)),
        }
    }
}

} // verus!
