//! Where a record goes in a sequence kept in time order, and what that
//! placement preserves.
//!
//! Events are kept ascending by start time and interactions ascending by
//! creation time. A new record goes after every record whose time is not
//! later than its own, so records with equal times keep their order of
//! arrival.
use vstd::prelude::*;
use crate::model::{Event, UserInteraction};

verus! {

/// Events are ascending by start time.
pub open spec fn events_by_start(s: Seq<Event>) -> bool {
    forall|i: int, j: int| 0 <= i < j < s.len() ==> s[i].start_time <= s[j].start_time
}

/// The position at which an event starting at `t` is placed: after the last
/// event that does not start later.
pub open spec fn start_slot(s: Seq<Event>, t: i64) -> int
    decreases s.len(),
{
    if s.len() == 0 {
        0
    } else if t < s.last().start_time {
        start_slot(s.drop_last(), t)
    } else {
        s.len() as int
    }
}

/// `s` with `e` placed in start-time order.
pub open spec fn place_event(s: Seq<Event>, e: Event) -> Seq<Event> {
    s.insert(start_slot(s, e.start_time), e)
}

/// The slot lies in the sequence; everything after it starts later, and the
/// event just before it does not.
pub proof fn lemma_start_slot_bounds(s: Seq<Event>, t: i64)
    ensures
        0 <= start_slot(s, t) <= s.len(),
        forall|j: int| start_slot(s, t) <= j < s.len() ==> t < #[trigger] s[j].start_time,
        start_slot(s, t) > 0 ==> s[start_slot(s, t) - 1].start_time <= t,
    decreases s.len(),
{
    if s.len() > 0 && t < s.last().start_time {
        lemma_start_slot_bounds(s.drop_last(), t);
        assert forall|j: int| start_slot(s, t) <= j < s.len() implies t < #[trigger] s[j].start_time by {
            if j < s.len() - 1 {
                assert(s[j] == s.drop_last()[j]);
            }
        }
    }
}

/// A position with the properties of `start_slot` is `start_slot`.
pub proof fn lemma_start_slot_unique(s: Seq<Event>, t: i64, p: int)
    requires
        0 <= p <= s.len(),
        forall|j: int| p <= j < s.len() ==> t < #[trigger] s[j].start_time,
        p > 0 ==> s[p - 1].start_time <= t,
    ensures
        start_slot(s, t) == p,
    decreases s.len(),
{
    if s.len() > 0 && p < s.len() {
        lemma_start_slot_unique(s.drop_last(), t, p);
    }
}

/// Placing an event keeps the sequence in start-time order.
pub proof fn lemma_place_event_sorted(s: Seq<Event>, e: Event)
    requires
        events_by_start(s),
    ensures
        events_by_start(place_event(s, e)),
{
    lemma_start_slot_bounds(s, e.start_time);
}

/// Interactions are ascending by creation time.
pub open spec fn interactions_by_time(s: Seq<UserInteraction>) -> bool {
    forall|i: int, j: int| 0 <= i < j < s.len() ==> s[i].created_at <= s[j].created_at
}

/// Interactions are strictly ascending by creation time: no two share an
/// instant.
pub open spec fn interactions_strictly_by_time(s: Seq<UserInteraction>) -> bool {
    forall|i: int, j: int| 0 <= i < j < s.len() ==> s[i].created_at < s[j].created_at
}

/// The creation time that a new interaction gets when the clock reads `now`:
/// `now` when it is later than every stored interaction, else one
/// microsecond after the newest one. `None` when the newest one already
/// holds the latest representable instant.
pub open spec fn next_time(s: Seq<UserInteraction>, now: i64) -> Option<i64> {
    if s.len() == 0 {
        Some(now)
    } else if s.last().created_at == i64::MAX {
        None
    } else if s.last().created_at < now {
        Some(now)
    } else {
        Some((s.last().created_at + 1) as i64)
    }
}

/// The position at which an interaction created at `t` is placed: after the
/// last interaction that was not created later.
pub open spec fn time_slot(s: Seq<UserInteraction>, t: i64) -> int
    decreases s.len(),
{
    if s.len() == 0 {
        0
    } else if t < s.last().created_at {
        time_slot(s.drop_last(), t)
    } else {
        s.len() as int
    }
}

/// `s` with `x` placed in creation-time order.
pub open spec fn place_interaction(s: Seq<UserInteraction>, x: UserInteraction) -> Seq<
    UserInteraction,
> {
    s.insert(time_slot(s, x.created_at), x)
}

pub proof fn lemma_time_slot_bounds(s: Seq<UserInteraction>, t: i64)
    ensures
        0 <= time_slot(s, t) <= s.len(),
        forall|j: int| time_slot(s, t) <= j < s.len() ==> t < #[trigger] s[j].created_at,
        time_slot(s, t) > 0 ==> s[time_slot(s, t) - 1].created_at <= t,
    decreases s.len(),
{
    if s.len() > 0 && t < s.last().created_at {
        lemma_time_slot_bounds(s.drop_last(), t);
        assert forall|j: int| time_slot(s, t) <= j < s.len() implies t < #[trigger] s[j].created_at by {
            if j < s.len() - 1 {
                assert(s[j] == s.drop_last()[j]);
            }
        }
    }
}

pub proof fn lemma_time_slot_unique(s: Seq<UserInteraction>, t: i64, p: int)
    requires
        0 <= p <= s.len(),
        forall|j: int| p <= j < s.len() ==> t < #[trigger] s[j].created_at,
        p > 0 ==> s[p - 1].created_at <= t,
    ensures
        time_slot(s, t) == p,
    decreases s.len(),
{
    if s.len() > 0 && p < s.len() {
        lemma_time_slot_unique(s.drop_last(), t, p);
    }
}

pub proof fn lemma_place_interaction_sorted(s: Seq<UserInteraction>, x: UserInteraction)
    requires
        interactions_by_time(s),
    ensures
        interactions_by_time(place_interaction(s, x)),
{
    lemma_time_slot_bounds(s, x.created_at);
}

/// The slot for a new event in `v`, found by scanning back from the end.
pub fn find_start_slot(v: &Vec<Event>, t: i64) -> (p: usize)
    ensures
        p == start_slot(v@, t),
{
    let mut p = v.len();
    while p > 0 && t < v[p - 1].start_time
        invariant
            p <= v@.len(),
            forall|j: int| p <= j < v@.len() ==> t < #[trigger] v@[j].start_time,
        decreases p,
    {
        p = p - 1;
    }
    proof {
        lemma_start_slot_unique(v@, t, p as int);
    }
    p
}

/// The slot for a new interaction in `v`, found by scanning back from the end.
pub fn find_time_slot(v: &Vec<UserInteraction>, t: i64) -> (p: usize)
    ensures
        p == time_slot(v@, t),
{
    let mut p = v.len();
    while p > 0 && t < v[p - 1].created_at
        invariant
            p <= v@.len(),
            forall|j: int| p <= j < v@.len() ==> t < #[trigger] v@[j].created_at,
        decreases p,
    {
        p = p - 1;
    }
    proof {
        lemma_time_slot_unique(v@, t, p as int);
    }
    p
}

} // verus!
