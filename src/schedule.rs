//! Which source events to mirror, and the scheduled event to create for each.
use vstd::prelude::*;
use crate::describe::{description_of, event_description};
use crate::marker::{is_mirrored, mirrored};
use crate::tmp_response::EventIndex;

verus! {

/// Layout of a source event's start time.
pub const START_FORMAT: &'static str = "%Y-%m-%d %H:%M:%S";

/// Length of a mirrored event, in seconds.
pub const EVENT_LENGTH_SECS: i64 = 3600;

/// Seconds since the Unix epoch of the date and time that `text` spells out
/// in the layout `format`, read as UTC; `None` where it does not parse.
pub uninterp spec fn naive_utc_timestamp(text: Seq<char>, format: Seq<char>) -> Option<i64>;

/// Relies on `chrono::NaiveDateTime::parse_from_str`, then `and_utc` and
/// `timestamp`: the result depends on the text and the layout alone. chrono's
/// dates lie between the years -262143 and 262142, so within 10^14 seconds
/// of the epoch.
#[verifier::external_body]
fn parse_timestamp(text: &str, format: &str) -> (r: Option<i64>)
    ensures
        r == naive_utc_timestamp(text@, format@),
        r matches Some(t) ==> -100_000_000_000_000 < t < 100_000_000_000_000,
{
    match chrono::NaiveDateTime::parse_from_str(text, format) {
        Ok(d) => Some(d.and_utc().timestamp()),
        Err(_) => None,
    }
}

/// Relies on `chrono::Utc::now` and `timestamp`: the present, in whole
/// seconds since the Unix epoch. `Utc::now` stops on a clock set before 1970
/// and builds a date within chrono's years (up to 262142), so the reading is
/// neither negative nor 10^14 seconds or more.
#[verifier::external_body]
fn now_timestamp() -> (r: i64)
    ensures
        0 <= r < 100_000_000_000_000,
{
    chrono::Utc::now().timestamp()
}

/// What happens to one source event.
#[derive(Clone, Copy, Debug, PartialEq, Eq, Structural)]
pub enum Decision {
    /// An existing event carries its marker.
    AlreadyMirrored,
    /// It does not start after the present.
    InThePast,
    /// It gets a scheduled event.
    Create,
}

/// The start used for the time check: the parsed one, or the present where
/// the text did not parse.
pub open spec fn start_or_now(parsed: Option<i64>, now: int) -> int {
    match parsed {
        Some(t) => t as int,
        None => now,
    }
}

pub open spec fn decision_for(marked: bool, parsed: Option<i64>, now: int) -> Decision {
    if marked {
        Decision::AlreadyMirrored
    } else if start_or_now(parsed, now) <= now {
        Decision::InThePast
    } else {
        Decision::Create
    }
}

/// The parsed start of a source event.
pub open spec fn parsed_start(e: EventIndex) -> Option<i64> {
    naive_utc_timestamp(e.start_at@, START_FORMAT@)
}

/// What happens to `e`, given the descriptions of the server's events and
/// the present.
pub open spec fn decision(e: EventIndex, existing: Seq<Option<String>>, now: int) -> Decision {
    decision_for(mirrored(existing, e.id), parsed_start(e), now)
}

/// Decides from whether the marker was found, the parsed start, and the
/// present.
pub fn decide(marked: bool, parsed: Option<i64>, now: i64) -> (r: Decision)
    ensures
        r == decision_for(marked, parsed, now as int),
{
    if marked {
        return Decision::AlreadyMirrored;
    }
    let start = match parsed {
        Some(t) => t,
        None => now,
    };
    if start <= now {
        Decision::InThePast
    } else {
        Decision::Create
    }
}

/// What happens to `e`, given the descriptions of the server's events and
/// the present.
pub fn classify(e: &EventIndex, existing: &Vec<Option<String>>, now: i64) -> (r: Decision)
    ensures
        r == decision(*e, existing@, now as int),
{
    let marked = is_mirrored(existing, e.id);
    let parsed = parse_timestamp(e.start_at.as_str(), START_FORMAT);
    decide(marked, parsed, now)
}

/// A scheduled event to create on the server, at an external location.
#[derive(Clone, Debug, PartialEq, Eq)]
pub struct EventPlan {
    /// Id of the source event.
    pub id: u64,
    pub name: String,
    /// Seconds since the Unix epoch.
    pub start: i64,
    /// Seconds since the Unix epoch.
    pub end: i64,
    pub location: String,
    pub description: String,
    /// Address of a cover image to fetch, if any.
    pub banner: Option<String>,
}

pub struct EventPlanView {
    pub id: u64,
    pub name: Seq<char>,
    pub start: int,
    pub end: int,
    pub location: Seq<char>,
    pub description: Seq<char>,
    pub banner: Option<Seq<char>>,
}

pub open spec fn text_option_view(o: Option<String>) -> Option<Seq<char>> {
    match o {
        Some(s) => Some(s@),
        None => None,
    }
}

impl View for EventPlan {
    type V = EventPlanView;

    open spec fn view(&self) -> EventPlanView {
        EventPlanView {
            id: self.id,
            name: self.name@,
            start: self.start as int,
            end: self.end as int,
            location: self.location@,
            description: self.description@,
            banner: text_option_view(self.banner),
        }
    }
}

/// The scheduled event for source event `e` starting at `start`.
pub open spec fn plan_of(e: EventIndex, start: int) -> EventPlanView {
    EventPlanView {
        id: e.id,
        name: e.name@,
        start,
        end: start + EVENT_LENGTH_SECS,
        location: e.departure.city@,
        description: description_of(e),
        banner: text_option_view(e.banner),
    }
}

/// The candidates that get a scheduled event, in their order.
pub open spec fn to_create(
    candidates: Seq<EventIndex>,
    existing: Seq<Option<String>>,
    now: int,
) -> Seq<EventIndex>
    decreases candidates.len(),
{
    if candidates.len() == 0 {
        Seq::empty()
    } else {
        let rest = to_create(candidates.drop_last(), existing, now);
        if decision(candidates.last(), existing, now) == Decision::Create {
            rest.push(candidates.last())
        } else {
            rest
        }
    }
}

/// The scheduled events to create for the candidates, in their order.
pub open spec fn plans_for(
    candidates: Seq<EventIndex>,
    existing: Seq<Option<String>>,
    now: int,
) -> Seq<EventPlanView> {
    to_create(candidates, existing, now).map_values(
        |e: EventIndex| plan_of(e, start_or_now(parsed_start(e), now)),
    )
}

pub open spec fn plan_views(plans: Seq<EventPlan>) -> Seq<EventPlanView> {
    plans.map_values(|p: EventPlan| p@)
}

fn copy_text_option(o: &Option<String>) -> (r: Option<String>)
    ensures
        r == *o,
{
    match o {
        Some(s) => Some(s.clone()),
        None => None,
    }
}

/// The scheduled event for source event `e` starting at `start`.
pub fn format_event(e: &EventIndex, start: i64) -> (r: EventPlan)
    requires
        start <= i64::MAX - EVENT_LENGTH_SECS,
    ensures
        r@ == plan_of(*e, start as int),
{
    EventPlan {
        id: e.id,
        name: e.name.clone(),
        start,
        end: start + EVENT_LENGTH_SECS,
        location: e.departure.city.clone(),
        description: event_description(e),
        banner: copy_text_option(&e.banner),
    }
}

/// The scheduled events to create: one for each candidate that no existing
/// description marks and that starts after `now`, in the candidates' order.
pub fn plan_new_events(
    candidates: &Vec<EventIndex>,
    existing: &Vec<Option<String>>,
    now: i64,
) -> (r: Vec<EventPlan>)
    ensures
        plan_views(r@) == plans_for(candidates@, existing@, now as int),
{
    let mut out: Vec<EventPlan> = Vec::new();
    let mut i: usize = 0;
    while i < candidates.len()
        invariant
            i <= candidates.len(),
            plan_views(out@) == plans_for(candidates@.take(i as int), existing@, now as int),
        decreases candidates.len() - i,
    {
        let e = &candidates[i];
        let ghost before = out@;
        assert(candidates@.take(i + 1).drop_last() =~= candidates@.take(i as int));
        assert(candidates@.take(i + 1).last() == *e);
        if classify(e, existing, now) == Decision::Create {
            let parsed = parse_timestamp(e.start_at.as_str(), START_FORMAT);
            if let Some(start) = parsed {
                let p = format_event(e, start);
                out.push(p);
            }
            assert(plan_views(out@) =~= plan_views(before).push(
                plan_of(*e, start_or_now(parsed_start(*e), now as int)),
            ));
        }
        i = i + 1;
        assert(plan_views(out@) =~= plans_for(candidates@.take(i as int), existing@, now as int));
    }
    assert(candidates@.take(i as int) =~= candidates@);
    out
}

/// The scheduled events to create as of the present moment, with the
/// reading of the clock, in seconds since the Unix epoch, that they were
/// decided against.
pub fn plan_new_events_now(candidates: &Vec<EventIndex>, existing: &Vec<Option<String>>) -> (r: (
    i64,
    Vec<EventPlan>,
))
    ensures
        0 <= r.0 < 100_000_000_000_000,
        plan_views(r.1@) == plans_for(candidates@, existing@, r.0 as int),
{
    let now = now_timestamp();
    (now, plan_new_events(candidates, existing, now))
}

/// The marker alone decides whether an event counts as mirrored; an
/// unmirrored one is created exactly when its start is after the present.
pub proof fn lemma_marker_decides(e: EventIndex, existing: Seq<Option<String>>, now: int)
    ensures
        decision(e, existing, now) == Decision::AlreadyMirrored <==> mirrored(existing, e.id),
        !mirrored(existing, e.id) ==> (decision(e, existing, now) == Decision::Create
            <==> start_or_now(parsed_start(e), now) > now),
{
}

/// A start that does not parse counts as the present, so the event is
/// never created.
pub proof fn lemma_unparsable_start_is_past(e: EventIndex, existing: Seq<Option<String>>, now: int)
    requires
        parsed_start(e) is None,
    ensures
        decision(e, existing, now) != Decision::Create,
        !mirrored(existing, e.id) ==> decision(e, existing, now) == Decision::InThePast,
{
}

/// Every candidate picked for creation carries no marker on the server and
/// starts after the present.
pub proof fn lemma_created_are_new_and_future(
    candidates: Seq<EventIndex>,
    existing: Seq<Option<String>>,
    now: int,
)
    ensures
        forall|k: int|
            0 <= k < to_create(candidates, existing, now).len() ==> {
                let e = #[trigger] to_create(candidates, existing, now)[k];
                &&& !mirrored(existing, e.id)
                &&& parsed_start(e) matches Some(t) && t > now
            },
    decreases candidates.len(),
{
    if candidates.len() > 0 {
        lemma_created_are_new_and_future(candidates.drop_last(), existing, now);
    }
}

/// No candidate whose id is marked on the server is created, however often
/// it appears among the candidates.
pub proof fn lemma_marked_id_never_created(
    candidates: Seq<EventIndex>,
    existing: Seq<Option<String>>,
    now: int,
    id: u64,
)
    requires
        mirrored(existing, id),
    ensures
        forall|k: int|
            0 <= k < to_create(candidates, existing, now).len() ==> (#[trigger] to_create(
                candidates,
                existing,
                now,
            )[k]).id != id,
{
    lemma_created_are_new_and_future(candidates, existing, now);
}

} // verus!
