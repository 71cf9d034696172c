use vstd::prelude::*;
use crate::calendar::{Date, current_date, is_saturday_day};
use crate::exchange::{Action, Event, Reply};
use crate::session::{gate_opens, open_gate};

verus! {

/// The dates an administrator marks, or unmarks, as days without service.
#[derive(Debug, PartialEq, Eq)]
pub struct SetUnableDateRequest {
    pub dates: Vec<Date>,
}

pub open spec fn saturday(d: Date) -> bool {
    is_saturday_day(d.num_days())
}

/// The first position from `from` on that holds a Saturday; the length where there is none.
pub open spec fn next_saturday(dates: Seq<Date>, from: int) -> int
    decreases dates.len() - from,
{
    if from >= dates.len() {
        dates.len() as int
    } else if saturday(dates[from]) {
        from
    } else {
        next_saturday(dates, from + 1)
    }
}

/// Where a marking request stands.
#[derive(Clone, Copy, Debug, PartialEq, Eq)]
pub enum TogglePhase {
    AwaitSession,
    /// Waits to learn whether the date at `index` is stored.
    AwaitLookup,
    /// Waits for the write for the date at `index`.
    AwaitWrite,
    Finished,
}

/// A marking request in progress: only the Saturdays among the dates count; each
/// one is unmarked where it is stored and marked where it is not, in the order given.
#[derive(Debug, PartialEq, Eq)]
pub struct DateToggleFlow {
    pub dates: Vec<Date>,
    pub index: usize,
    pub phase: TogglePhase,
}

/// The flow moves on to the first Saturday from `from` on, or answers success past the last one.
pub open spec fn advanced(dates: Seq<Date>, from: int, f: DateToggleFlow, a: Action) -> bool {
    let j: int = next_saturday(dates, from);
    &&& f.dates@ == dates
    &&& if j == dates.len() {
        f.phase is Finished && a == Action::Respond(Reply::Success)
    } else {
        f.phase is AwaitLookup && f.index == j && a == Action::FindUnableDate(dates[j])
    }
}

proof fn lemma_next_saturday_bounds(dates: Seq<Date>, from: int)
    requires
        0 <= from <= dates.len(),
    ensures
        from <= next_saturday(dates, from) <= dates.len(),
    decreases dates.len() - from,
{
    if from < dates.len() && !saturday(dates[from]) {
        lemma_next_saturday_bounds(dates, from + 1);
    }
}

fn advance(dates: Vec<Date>, from: usize) -> (r: (DateToggleFlow, Action))
    requires
        from <= dates.len(),
    ensures
        advanced(dates@, from as int, r.0, r.1),
{
    let mut j: usize = from;
    while j < dates.len() && !dates[j].is_saturday()
        invariant
            from <= j <= dates.len(),
            next_saturday(dates@, from as int) == next_saturday(dates@, j as int),
        decreases dates.len() - j,
    {
        j = j + 1;
    }
    if j == dates.len() {
        (DateToggleFlow { dates, index: j, phase: TogglePhase::Finished }, Action::Respond(Reply::Success))
    } else {
        let d = dates[j];
        (DateToggleFlow { dates, index: j, phase: TogglePhase::AwaitLookup }, Action::FindUnableDate(d))
    }
}

/// Starts marking days without service; needs an administrator session.
pub fn set_no_service_date(request: SetUnableDateRequest, cookie: Option<String>) -> (r: (DateToggleFlow, Action))
    ensures
        r.0.dates@ == request.dates@,
        r.0.index == 0,
        gate_opens(cookie, r.1),
        cookie is None ==> r.0.phase is Finished,
        cookie is Some ==> r.0.phase is AwaitSession,
{
    let phase = if cookie.is_none() { TogglePhase::Finished } else { TogglePhase::AwaitSession };
    (DateToggleFlow { dates: request.dates, index: 0, phase }, open_gate(cookie))
}

impl DateToggleFlow {
    pub open spec fn can_take(&self, e: Event) -> bool {
        match self.phase {
            TogglePhase::AwaitSession => e is SessionChecked,
            TogglePhase::AwaitLookup => e is UnableDateFound && self.index < self.dates.len(),
            TogglePhase::AwaitWrite => e is UnableDateWritten && self.index < self.dates.len(),
            TogglePhase::Finished => false,
        }
    }

    pub fn accepts(&self, e: &Event) -> (b: bool)
        ensures
            b == self.can_take(*e),
    {
        match self.phase {
            TogglePhase::AwaitSession => matches!(e, Event::SessionChecked(_)),
            TogglePhase::AwaitLookup => matches!(e, Event::UnableDateFound(_)) && self.index < self.dates.len(),
            TogglePhase::AwaitWrite => matches!(e, Event::UnableDateWritten(_)) && self.index < self.dates.len(),
            TogglePhase::Finished => false,
        }
    }

    pub open spec fn takes(self, e: Event, next: DateToggleFlow, a: Action) -> bool {
        match self.phase {
            TogglePhase::AwaitSession => match e {
                Event::SessionChecked(true) => advanced(self.dates@, 0, next, a),
                _ => next.phase is Finished && a == Action::Respond(Reply::BadRequest),
            },
            TogglePhase::AwaitLookup => match e {
                Event::UnableDateFound(Ok(found)) => {
                    &&& next.dates@ == self.dates@
                    &&& next.index == self.index
                    &&& next.phase is AwaitWrite
                    &&& match found {
                        Some(row) => a == Action::DeleteUnableDate(row.id),
                        None => a == Action::InsertUnableDate(self.dates@[self.index as int]),
                    }
                },
                _ => next.phase is Finished && a == Action::Respond(Reply::InternalServerError),
            },
            _ => match e {
                Event::UnableDateWritten(Ok(())) => advanced(self.dates@, self.index + 1, next, a),
                _ => next.phase is Finished && a == Action::Respond(Reply::InternalServerError),
            },
        }
    }

    /// Takes the next event: once the session is confirmed, each Saturday among the
    /// dates is looked up, then deleted where it was found and stored where it was
    /// not; dates on other days are passed over. A failed store operation ends the
    /// request with an internal server error, the writes before it standing.
    pub fn step(self, e: Event) -> (r: (DateToggleFlow, Action))
        requires
            self.can_take(e),
        ensures
            self.takes(e, r.0, r.1),
    {
        let index: usize = self.index;
        match self.phase {
            TogglePhase::AwaitSession => match e {
                Event::SessionChecked(true) => advance(self.dates, 0),
                _ => (DateToggleFlow { phase: TogglePhase::Finished, ..self }, Action::Respond(Reply::BadRequest)),
            },
            TogglePhase::AwaitLookup => match e {
                Event::UnableDateFound(Ok(found)) => {
                    let a = match found {
                        Some(row) => Action::DeleteUnableDate(row.id),
                        None => Action::InsertUnableDate(self.dates[index]),
                    };
                    (DateToggleFlow { phase: TogglePhase::AwaitWrite, ..self }, a)
                },
                _ => (DateToggleFlow { phase: TogglePhase::Finished, ..self }, Action::Respond(Reply::InternalServerError)),
            },
            _ => match e {
                Event::UnableDateWritten(Ok(())) => advance(self.dates, index + 1),
                _ => (DateToggleFlow { phase: TogglePhase::Finished, ..self }, Action::Respond(Reply::InternalServerError)),
            },
        }
    }
}

/// A listing of the days without service in progress.
#[derive(Clone, Copy, Debug, PartialEq, Eq)]
pub enum UpcomingDatesFlow {
    AwaitList,
    Finished,
}

/// Starts listing the stored days without service from `day` on.
pub fn list_unable_dates_from(day: Date) -> (r: (UpcomingDatesFlow, Action))
    ensures
        r.0 is AwaitList,
        r.1 == Action::ListUnableDatesFrom(day),
{
    (UpcomingDatesFlow::AwaitList, Action::ListUnableDatesFrom(day))
}

/// Starts listing the stored days without service from today on, reading the
/// clock for today's date; anyone may ask.
pub fn get_no_service_date() -> (r: (UpcomingDatesFlow, Action))
    ensures
        r.0 is AwaitList,
        r.1 is ListUnableDatesFrom,
{
    list_unable_dates_from(current_date())
}

impl UpcomingDatesFlow {
    pub open spec fn can_take(&self, e: Event) -> bool {
        self is AwaitList && e is UnableDatesListed
    }

    pub fn accepts(&self, e: &Event) -> (b: bool)
        ensures
            b == self.can_take(*e),
    {
        matches!(self, UpcomingDatesFlow::AwaitList) && matches!(e, Event::UnableDatesListed(_))
    }

    pub open spec fn takes(self, e: Event, next: UpcomingDatesFlow, a: Action) -> bool {
        &&& next is Finished
        &&& match e {
            Event::UnableDatesListed(Ok(dates)) => a == Action::Respond(Reply::Dates(dates)),
            _ => a == Action::Respond(Reply::InternalServerError),
        }
    }

    /// The dates the store listed are sent as they came.
    pub fn step(self, e: Event) -> (r: (UpcomingDatesFlow, Action))
        requires
            self.can_take(e),
        ensures
            self.takes(e, r.0, r.1),
    {
        match e {
            Event::UnableDatesListed(Ok(dates)) => (UpcomingDatesFlow::Finished, Action::Respond(Reply::Dates(dates))),
            _ => (UpcomingDatesFlow::Finished, Action::Respond(Reply::InternalServerError)),
        }
    }
}

/// The days without service after one date is processed: a Saturday is removed
/// where it is stored and added where it is not; any other day changes nothing.
pub open spec fn toggle_one(table: Set<int>, d: Date) -> Set<int> {
    if saturday(d) {
        if table.contains(d.num_days()) {
            table.remove(d.num_days())
        } else {
            table.insert(d.num_days())
        }
    } else {
        table
    }
}

/// The days without service after the dates are processed in order.
pub open spec fn toggle_all(table: Set<int>, dates: Seq<Date>) -> Set<int>
    decreases dates.len(),
{
    if dates.len() == 0 {
        table
    } else {
        toggle_all(toggle_one(table, dates[0]), dates.drop_first())
    }
}

/// How many of the dates are Saturdays with day number `x`.
pub open spec fn flips(dates: Seq<Date>, x: int) -> nat
    decreases dates.len(),
{
    if dates.len() == 0 {
        0
    } else {
        (if saturday(dates[0]) && dates[0].num_days() == x { 1nat } else { 0nat }) + flips(dates.drop_first(), x)
    }
}

/// A day is without service after the dates are processed exactly where it was
/// before, or where it appears an odd number of times among the Saturdays, but not both.
pub proof fn toggle_all_membership(table: Set<int>, dates: Seq<Date>, x: int)
    ensures
        toggle_all(table, dates).contains(x) == (table.contains(x) != (flips(dates, x) % 2 == 1)),
    decreases dates.len(),
{
    if dates.len() > 0 {
        toggle_all_membership(toggle_one(table, dates[0]), dates.drop_first(), x);
    }
}

/// Marking the same dates twice restores the days without service as they were.
pub proof fn toggle_twice_restores(table: Set<int>, dates: Seq<Date>)
    ensures
        toggle_all(toggle_all(table, dates), dates) == table,
{
    assert forall|x: int| #[trigger] toggle_all(toggle_all(table, dates), dates).contains(x) == table.contains(x) by {
        toggle_all_membership(table, dates, x);
        toggle_all_membership(toggle_all(table, dates), dates, x);
    }
    assert(toggle_all(toggle_all(table, dates), dates) =~= table);
}

/// Only Saturdays among the dates change: any other day, and any Saturday not
/// among the dates, is without service afterwards exactly where it was before.
pub proof fn only_listed_saturdays_change(table: Set<int>, dates: Seq<Date>, x: int)
    requires
        forall|i: int| 0 <= i < dates.len() ==> !(saturday(#[trigger] dates[i]) && dates[i].num_days() == x),
    ensures
        toggle_all(table, dates).contains(x) == table.contains(x),
{
    lemma_no_flips(dates, x);
    toggle_all_membership(table, dates, x);
}

/// Where every stored day without service is a Saturday, marking keeps it so.
pub proof fn marking_keeps_only_saturdays(table: Set<int>, dates: Seq<Date>)
    requires
        forall|x: int| #[trigger] table.contains(x) ==> is_saturday_day(x),
    ensures
        forall|x: int| #[trigger] toggle_all(table, dates).contains(x) ==> is_saturday_day(x),
{
    assert forall|x: int| #[trigger] toggle_all(table, dates).contains(x) implies is_saturday_day(x) by {
        toggle_all_membership(table, dates, x);
        if !table.contains(x) {
            lemma_flips_come_from_saturdays(dates, x);
        }
    }
}

proof fn lemma_flips_come_from_saturdays(dates: Seq<Date>, x: int)
    requires
        flips(dates, x) > 0,
    ensures
        is_saturday_day(x),
    decreases dates.len(),
{
    if !(saturday(dates[0]) && dates[0].num_days() == x) {
        lemma_flips_come_from_saturdays(dates.drop_first(), x);
    }
}

proof fn lemma_no_flips(dates: Seq<Date>, x: int)
    requires
        forall|i: int| 0 <= i < dates.len() ==> !(saturday(#[trigger] dates[i]) && dates[i].num_days() == x),
    ensures
        flips(dates, x) == 0,
    decreases dates.len(),
{
    if dates.len() > 0 {
        assert(!(saturday(dates[0]) && dates[0].num_days() == x));
        assert forall|i: int| 0 <= i < dates.drop_first().len() implies !(saturday(#[trigger] dates.drop_first()[i]) && dates.drop_first()[i].num_days() == x) by {
            assert(dates.drop_first()[i] == dates[i + 1]);
        }
        lemma_no_flips(dates.drop_first(), x);
    }
}

proof fn lemma_toggle_skip_step(table: Set<int>, dates: Seq<Date>, i: int)
    requires
        0 <= i < dates.len(),
    ensures
        toggle_all(table, dates.skip(i)) == toggle_all(toggle_one(table, dates[i]), dates.skip(i + 1)),
{
    assert(dates.skip(i).drop_first() =~= dates.skip(i + 1));
    assert(dates.skip(i)[0] == dates[i]);
}

proof fn lemma_toggle_skip_to_saturday(table: Set<int>, dates: Seq<Date>, i: int)
    requires
        0 <= i <= dates.len(),
    ensures
        toggle_all(table, dates.skip(i)) == toggle_all(table, dates.skip(next_saturday(dates, i))),
    decreases dates.len() - i,
{
    if i < dates.len() && !saturday(dates[i]) {
        lemma_toggle_skip_step(table, dates, i);
        lemma_toggle_skip_to_saturday(table, dates, i + 1);
    }
}

/// The position `next_saturday` finds holds a Saturday, and every date it passes is no Saturday.
pub proof fn next_saturday_is_first_saturday(dates: Seq<Date>, from: int)
    requires
        0 <= from <= dates.len(),
    ensures
        from <= next_saturday(dates, from) <= dates.len(),
        next_saturday(dates, from) < dates.len() ==> saturday(dates[next_saturday(dates, from)]),
        forall|k: int| from <= k < next_saturday(dates, from) ==> !saturday(#[trigger] dates[k]),
    decreases dates.len() - from,
{
    lemma_next_saturday_bounds(dates, from);
    if from < dates.len() && !saturday(dates[from]) {
        next_saturday_is_first_saturday(dates, from + 1);
    }
}

/// A marking request past its session check: it waits on a Saturday among its dates.
pub open spec fn toggle_wf(f: DateToggleFlow) -> bool {
    (f.phase is AwaitLookup || f.phase is AwaitWrite) ==> {
        &&& f.index < f.dates@.len()
        &&& saturday(f.dates@[f.index as int])
    }
}

/// The days without service once the store has performed `a`, which `f` asked for.
pub open spec fn performed(table: Set<int>, f: DateToggleFlow, a: Action) -> Set<int> {
    match a {
        Action::DeleteUnableDate(_) => table.remove(f.dates@[f.index as int].num_days()),
        Action::InsertUnableDate(d) => table.insert(d.num_days()),
        _ => table,
    }
}

/// The store answers `f` truthfully and accepts every write: the session is
/// confirmed, and a lookup finds a row exactly where the date looked up is stored.
pub open spec fn truthful(table: Set<int>, f: DateToggleFlow, e: Event) -> bool {
    match f.phase {
        TogglePhase::AwaitSession => e == Event::SessionChecked(true),
        TogglePhase::AwaitLookup => e matches Event::UnableDateFound(Ok(found))
            && (found is Some <==> table.contains(f.dates@[f.index as int].num_days())),
        TogglePhase::AwaitWrite => e == Event::UnableDateWritten(Ok(())),
        TogglePhase::Finished => false,
    }
}

/// The days without service the request leaves when it runs to its end, the store
/// holding `table` before it performs `a`, the action `f` has just asked for.
pub open spec fn outcome(f: DateToggleFlow, a: Action, table: Set<int>) -> Set<int> {
    match f.phase {
        TogglePhase::AwaitLookup => toggle_all(table, f.dates@.skip(f.index as int)),
        TogglePhase::AwaitWrite => toggle_all(performed(table, f, a), f.dates@.skip(f.index + 1)),
        _ => table,
    }
}

proof fn lemma_advanced_outcome(dates: Seq<Date>, from: int, f: DateToggleFlow, a: Action, table: Set<int>)
    requires
        0 <= from <= dates.len(),
        advanced(dates, from, f, a),
    ensures
        toggle_wf(f),
        outcome(f, a, table) == toggle_all(table, dates.skip(from)),
{
    next_saturday_is_first_saturday(dates, from);
    lemma_toggle_skip_to_saturday(table, dates, from);
    if next_saturday(dates, from) == dates.len() {
        assert(dates.skip(dates.len() as int) =~= Seq::<Date>::empty());
    }
}

/// Once the session is confirmed, a request to mark `dates` is set to leave the
/// days without service `toggle_all(table, dates)`.
pub proof fn marking_starts_toward_toggle_all(f: DateToggleFlow, e: Event, next: DateToggleFlow, a: Action, table: Set<int>)
    requires
        f.phase is AwaitSession,
        truthful(table, f, e),
        f.takes(e, next, a),
    ensures
        toggle_wf(next),
        outcome(next, a, table) == toggle_all(table, f.dates@),
{
    assert(f.dates@.skip(0) =~= f.dates@);
    lemma_advanced_outcome(f.dates@, 0, next, a, table);
}

/// Every step of a marking request, against a store that answers truthfully and
/// accepts every write, keeps the days without service it will leave unchanged:
/// a Saturday looked up is deleted where found and stored where not, and the
/// dates passed over are no Saturdays. With `marking_starts_toward_toggle_all`,
/// and `outcome` being the store itself once the request is finished, the request
/// leaves exactly `toggle_all(table, dates)`.
pub proof fn marking_step_keeps_outcome(f: DateToggleFlow, a: Action, table: Set<int>, e: Event, next: DateToggleFlow, a2: Action)
    requires
        toggle_wf(f),
        f.phase is AwaitLookup ==> a == Action::FindUnableDate(f.dates@[f.index as int]),
        f.phase is AwaitLookup || f.phase is AwaitWrite,
        truthful(table, f, e),
        f.takes(e, next, a2),
    ensures
        toggle_wf(next),
        outcome(next, a2, performed(table, f, a)) == outcome(f, a, table),
        next.phase is Finished ==> outcome(next, a2, performed(table, f, a)) == performed(table, f, a),
{
    let ds = f.dates@;
    let i: int = f.index as int;
    if f.phase is AwaitLookup {
        assert(performed(table, f, a) == table);
        lemma_toggle_skip_step(table, ds, i);
        assert(performed(table, next, a2) == toggle_one(table, ds[i]));
    } else {
        lemma_advanced_outcome(ds, i + 1, next, a2, performed(table, f, a));
    }
}

/// A point of a marking request: the flow and the action it has just asked for,
/// as the flow's steps leave them.
pub open spec fn at_point(f: DateToggleFlow, a: Action) -> bool {
    &&& toggle_wf(f)
    &&& f.phase is AwaitSession ==> a is LookupSession
    &&& f.phase is AwaitLookup ==> a == Action::FindUnableDate(f.dates@[f.index as int])
    &&& f.phase is AwaitWrite ==> (a is DeleteUnableDate || a == Action::InsertUnableDate(f.dates@[f.index as int]))
    &&& f.phase is Finished ==> a is Respond
}

/// A run of one marking request: it starts at the session lookup, each flow takes
/// the event that follows, and the store's days without service change only by
/// the write just asked for, where that write took place.
pub open spec fn marking_run(flows: Seq<DateToggleFlow>, actions: Seq<Action>, events: Seq<Event>, tables: Seq<Set<int>>) -> bool {
    &&& flows.len() == events.len() + 1
    &&& actions.len() == flows.len()
    &&& tables.len() == flows.len()
    &&& flows[0].phase is AwaitSession
    &&& actions[0] is LookupSession
    &&& forall|i: int| 0 <= i < events.len() ==> {
        &&& flows[i].can_take(#[trigger] events[i])
        &&& flows[i].takes(events[i], flows[i + 1], actions[i + 1])
        &&& (tables[i + 1] == tables[i] || tables[i + 1] == performed(tables[i], flows[i], actions[i]))
    }
}

/// A run of one marking request that the store answers truthfully, taking every
/// write, and that runs to its end.
pub open spec fn truthful_run(flows: Seq<DateToggleFlow>, actions: Seq<Action>, events: Seq<Event>, tables: Seq<Set<int>>) -> bool {
    &&& marking_run(flows, actions, events, tables)
    &&& flows.last().phase is Finished
    &&& forall|i: int| 0 <= i < events.len() ==> {
        &&& truthful(tables[i], flows[i], #[trigger] events[i])
        &&& tables[i + 1] == performed(tables[i], flows[i], actions[i])
    }
}

proof fn lemma_takes_keeps_point(f: DateToggleFlow, a: Action, e: Event, next: DateToggleFlow, a2: Action)
    requires
        at_point(f, a),
        f.can_take(e),
        f.takes(e, next, a2),
    ensures
        at_point(next, a2),
        !(next.phase is AwaitSession),
{
    match f.phase {
        TogglePhase::AwaitSession => {
            if e == Event::SessionChecked(true) {
                lemma_advanced_outcome(f.dates@, 0, next, a2, Set::empty());
            }
        },
        TogglePhase::AwaitWrite => {
            if e matches Event::UnableDateWritten(Ok(_)) {
                lemma_advanced_outcome(f.dates@, f.index + 1, next, a2, Set::empty());
            }
        },
        _ => {},
    }
}

proof fn lemma_run_points(flows: Seq<DateToggleFlow>, actions: Seq<Action>, events: Seq<Event>, tables: Seq<Set<int>>, k: int)
    requires
        marking_run(flows, actions, events, tables),
        0 <= k < flows.len(),
    ensures
        at_point(flows[k], actions[k]),
        k > 0 ==> !(flows[k].phase is AwaitSession),
    decreases k,
{
    if k > 0 {
        lemma_run_points(flows, actions, events, tables, k - 1);
        assert(flows[k - 1].can_take(events[k - 1]));
        lemma_takes_keeps_point(flows[k - 1], actions[k - 1], events[k - 1], flows[k], actions[k]);
    }
}

proof fn lemma_truthful_outcome(flows: Seq<DateToggleFlow>, actions: Seq<Action>, events: Seq<Event>, tables: Seq<Set<int>>, k: int)
    requires
        truthful_run(flows, actions, events, tables),
        1 <= k < flows.len(),
    ensures
        outcome(flows[k], actions[k], tables[k]) == toggle_all(tables[0], flows[0].dates@),
    decreases k,
{
    let i = k - 1;
    assert(truthful(tables[i], flows[i], events[i]));
    lemma_run_points(flows, actions, events, tables, i);
    if k == 1 {
        marking_starts_toward_toggle_all(flows[0], events[0], flows[1], actions[1], tables[0]);
    } else {
        lemma_truthful_outcome(flows, actions, events, tables, i);
        marking_step_keeps_outcome(flows[i], actions[i], tables[i], events[i], flows[k], actions[k]);
    }
}

/// A marking request that the store answers truthfully, taking every write, leaves
/// exactly `toggle_all` of the days without service it started from: every
/// Saturday among the dates is toggled once per time it appears, and nothing else
/// changes.
pub proof fn marking_run_leaves_toggle_all(flows: Seq<DateToggleFlow>, actions: Seq<Action>, events: Seq<Event>, tables: Seq<Set<int>>)
    requires
        truthful_run(flows, actions, events, tables),
    ensures
        tables.last() == toggle_all(tables[0], flows[0].dates@),
{
    let n = flows.len() - 1;
    if n == 0 {
        assert(false);
    }
    lemma_truthful_outcome(flows, actions, events, tables, n);
}

/// Two marking requests for the same dates in a row, each answered truthfully and
/// taking every write, leave the days without service as they were before the first.
pub proof fn marking_twice_restores(
    flows1: Seq<DateToggleFlow>, actions1: Seq<Action>, events1: Seq<Event>, tables1: Seq<Set<int>>,
    flows2: Seq<DateToggleFlow>, actions2: Seq<Action>, events2: Seq<Event>, tables2: Seq<Set<int>>,
)
    requires
        truthful_run(flows1, actions1, events1, tables1),
        truthful_run(flows2, actions2, events2, tables2),
        flows2[0].dates@ == flows1[0].dates@,
        tables2[0] == tables1.last(),
    ensures
        tables2.last() == tables1[0],
{
    marking_run_leaves_toggle_all(flows1, actions1, events1, tables1);
    marking_run_leaves_toggle_all(flows2, actions2, events2, tables2);
    toggle_twice_restores(tables1[0], flows1[0].dates@);
}

/// Whatever the store answers, and whether or not each write takes place, a marking
/// request leaves only Saturdays among the days without service if it found only
/// Saturdays there: it stores nothing but the Saturdays it looked up. (Days without
/// service are a set: no date is held twice.)
pub proof fn marking_run_keeps_only_saturdays(flows: Seq<DateToggleFlow>, actions: Seq<Action>, events: Seq<Event>, tables: Seq<Set<int>>, k: int)
    requires
        marking_run(flows, actions, events, tables),
        forall|x: int| #[trigger] tables[0].contains(x) ==> is_saturday_day(x),
        0 <= k < tables.len(),
    ensures
        forall|x: int| #[trigger] tables[k].contains(x) ==> is_saturday_day(x),
    decreases k,
{
    if k > 0 {
        let i = k - 1;
        marking_run_keeps_only_saturdays(flows, actions, events, tables, i);
        lemma_run_points(flows, actions, events, tables, i);
        assert(flows[i].can_take(events[i]));
        assert forall|x: int| #[trigger] tables[k].contains(x) implies is_saturday_day(x) by {
            if tables[k] != tables[i] {
                assert(tables[k] == performed(tables[i], flows[i], actions[i]));
                if !tables[i].contains(x) {
                    assert(actions[i] == Action::InsertUnableDate(flows[i].dates@[flows[i].index as int]));
                }
            }
        }
    }
}

} // verus!
