//! Properties that relate several operations of the store, proved over the
//! models that the operations' contracts use.
use vstd::prelude::*;
use crate::model::{Event, StoreError, UserInteraction, UserPreference};
use crate::order::{
    events_by_start, interactions_by_time, interactions_strictly_by_time,
    lemma_place_event_sorted, lemma_start_slot_bounds, place_event, start_slot,
};
use crate::search::{search_result, selects, SearchQuery};
use crate::store::{
    event_ids_unique, event_lookup, has_event, has_pref, newest_first, pref_index,
    pref_is, pref_keys_unique, upsert_pref,
};
use crate::text::lower_of;

verus! {

/// An event placed in the store is what a lookup of its id returns.
pub proof fn law_created_event_found(s: Seq<Event>, e: Event)
    requires
        event_ids_unique(s),
        !has_event(s, e.id),
    ensures
        event_lookup(place_event(s, e), e.id) == Ok::<Event, StoreError>(e),
{
    let t = place_event(s, e);
    let p = start_slot(s, e.start_time);
    lemma_start_slot_bounds(s, e.start_time);
    assert(t[p] == e);
    assert(has_event(t, e.id));
    let c = choose|i: int| 0 <= i < t.len() && t[i].id == e.id;
    if c != p {
        let c0 = if c < p { c } else { c - 1 };
        assert(t[c] == s[c0]);
    }
}

/// Placing a new event changes no lookup of an id that was already in use:
/// a lookup keeps returning the same event as more events are created.
pub proof fn law_created_event_stays_found(s: Seq<Event>, e: Event, id: u128)
    requires
        event_ids_unique(s),
        !has_event(s, e.id),
        has_event(s, id),
    ensures
        event_lookup(place_event(s, e), id) == event_lookup(s, id),
{
    let t = place_event(s, e);
    let p = start_slot(s, e.start_time);
    lemma_start_slot_bounds(s, e.start_time);
    let k = choose|i: int| 0 <= i < s.len() && s[i].id == id;
    let kt = if k < p { k } else { k + 1 };
    assert(t[kt] == s[k]);
    assert(has_event(t, id));
    let c = choose|i: int| 0 <= i < t.len() && t[i].id == id;
    if c != kt {
        if c == p {
            assert(t[c] == e);
        } else {
            let c0 = if c < p { c } else { c - 1 };
            assert(t[c] == s[c0]);
        }
    }
}

/// The events stay ascending by start time, and an event that starts before
/// every other comes first.
pub proof fn law_earliest_event_listed_first(s: Seq<Event>, e: Event)
    requires
        events_by_start(s),
        forall|i: int| 0 <= i < s.len() ==> e.start_time < #[trigger] s[i].start_time,
    ensures
        events_by_start(place_event(s, e)),
        place_event(s, e)[0] == e,
{
    lemma_place_event_sorted(s, e);
    lemma_start_slot_bounds(s, e.start_time);
    if start_slot(s, e.start_time) > 0 {
        assert(s[start_slot(s, e.start_time) - 1].start_time <= e.start_time);
    }
}

/// Two searches whose texts are equal once case-folded, and whose
/// categories are equal, select the same events.
pub proof fn law_search_ignores_case(events: Seq<Event>, a: SearchQuery, b: SearchQuery)
    requires
        a.q is Some <==> b.q is Some,
        a.q is Some ==> lower_of(a.q->0@) == lower_of(b.q->0@),
        a.category is Some <==> b.category is Some,
        a.category is Some ==> a.category->0@ == b.category->0@,
    ensures
        search_result(events, a) == search_result(events, b),
{
    let pa = |e: Event| selects(a, e);
    let pb = |e: Event| selects(b, e);
    assert(pa =~= pb);
}

/// After an upsert for a user and category, the user has exactly one
/// preference for that category, with the weight upserted last.
pub open spec fn single_pref_with_weight(
    s: Seq<UserPreference>,
    user_id: u128,
    category: Seq<char>,
    weight: i32,
) -> bool {
    &&& has_pref(s, user_id, category)
    &&& forall|i: int, j: int|
        0 <= i < s.len() && 0 <= j < s.len() && pref_is(s[i], user_id, category) && pref_is(
            s[j],
            user_id,
            category,
        ) ==> i == j
    &&& forall|i: int|
        0 <= i < s.len() && pref_is(s[i], user_id, category) ==> #[trigger] s[i].weight == weight
}

/// An upsert keeps at most one preference per user and category.
pub proof fn law_upsert_keeps_keys_unique(s: Seq<UserPreference>, row: UserPreference)
    requires
        pref_keys_unique(s),
    ensures
        pref_keys_unique(upsert_pref(s, row)),
{
    let t = upsert_pref(s, row);
    if has_pref(s, row.user_id, row.category@) {
        let k = pref_index(s, row.user_id, row.category@);
        assert forall|i: int, j: int|
            0 <= i < t.len() && 0 <= j < t.len() && i != j implies !pref_is(
            t[j],
            t[i].user_id,
            t[i].category@,
        ) by {
            assert(!pref_is(s[j], s[i].user_id, s[i].category@));
        }
    } else {
        assert forall|i: int, j: int|
            0 <= i < t.len() && 0 <= j < t.len() && i != j implies !pref_is(
            t[j],
            t[i].user_id,
            t[i].category@,
        ) by {
            if i < s.len() && j < s.len() {
                assert(!pref_is(s[j], s[i].user_id, s[i].category@));
            }
        }
    }
}

/// After an upsert of `row`, its user has exactly one preference for its
/// category, with its weight.
pub proof fn law_upsert_leaves_one_row(s: Seq<UserPreference>, row: UserPreference)
    requires
        pref_keys_unique(s),
    ensures
        single_pref_with_weight(upsert_pref(s, row), row.user_id, row.category@, row.weight),
{
    let t = upsert_pref(s, row);
    law_upsert_keeps_keys_unique(s, row);
    if has_pref(s, row.user_id, row.category@) {
        let k = pref_index(s, row.user_id, row.category@);
        assert(pref_is(t[k], row.user_id, row.category@));
    } else {
        assert(pref_is(t[s.len() as int], row.user_id, row.category@));
    }
    assert forall|i: int, j: int|
        0 <= i < t.len() && 0 <= j < t.len() && pref_is(t[i], row.user_id, row.category@)
            && pref_is(t[j], row.user_id, row.category@) implies i == j by {
        if i != j {
            assert(!pref_is(t[j], t[i].user_id, t[i].category@));
        }
    }
}

/// Upserting the same user, category and weight twice leaves one
/// preference for them, with that weight.
pub proof fn law_upsert_twice_same_weight(
    s: Seq<UserPreference>,
    first: UserPreference,
    second: UserPreference,
)
    requires
        pref_keys_unique(s),
        pref_is(second, first.user_id, first.category@),
        second.weight == first.weight,
    ensures
        single_pref_with_weight(
            upsert_pref(upsert_pref(s, first), second),
            first.user_id,
            first.category@,
            first.weight,
        ),
{
    law_upsert_overwrites(s, first, second);
}

/// Upserting a user and category twice leaves one preference for them, with
/// the second weight.
pub proof fn law_upsert_overwrites(
    s: Seq<UserPreference>,
    first: UserPreference,
    second: UserPreference,
)
    requires
        pref_keys_unique(s),
        pref_is(second, first.user_id, first.category@),
    ensures
        single_pref_with_weight(
            upsert_pref(upsert_pref(s, first), second),
            first.user_id,
            first.category@,
            second.weight,
        ),
{
    law_upsert_keeps_keys_unique(s, first);
    law_upsert_leaves_one_row(upsert_pref(s, first), second);
}

/// `x` is an interaction of `s` made by user `user_id`.
pub open spec fn interaction_of(s: Seq<UserInteraction>, x: UserInteraction, user_id: u128) -> bool {
    exists|m: int| 0 <= m < s.len() && s[m] == x && x.user_id == user_id
}

/// Every interaction listed for a user is one of that user's interactions.
pub proof fn lemma_newest_first_members(s: Seq<UserInteraction>, user_id: u128)
    ensures
        forall|k: int|
            0 <= k < newest_first(s, user_id).len() ==> interaction_of(
                s,
                #[trigger] newest_first(s, user_id)[k],
                user_id,
            ),
    decreases s.len(),
{
    if s.len() > 0 {
        let rest = s.drop_first();
        lemma_newest_first_members(rest, user_id);
        let r = newest_first(s, user_id);
        let rr = newest_first(rest, user_id);
        assert forall|k: int| 0 <= k < r.len() implies interaction_of(s, #[trigger] r[k], user_id) by {
            if k < rr.len() {
                assert(interaction_of(rest, rr[k], user_id));
                let m = choose|m: int| 0 <= m < rest.len() && rest[m] == rr[k] && rr[k].user_id == user_id;
                assert(r[k] == rr[k]);
                assert(s[m + 1] == rest[m]);
            } else {
                assert(s[0] == r[k]);
            }
        }
    }
}

/// The interactions listed for a user come newest first; when no two of
/// them were created at the same instant, each is strictly newer than the
/// next.
pub proof fn law_interactions_newest_first(s: Seq<UserInteraction>, user_id: u128)
    requires
        interactions_by_time(s),
    ensures
        forall|i: int, j: int|
            0 <= i < j < newest_first(s, user_id).len() ==> newest_first(s, user_id)[j].created_at
                <= newest_first(s, user_id)[i].created_at,
        (forall|i: int, j: int|
            0 <= i < j < s.len() && s[i].user_id == user_id && s[j].user_id == user_id
                ==> s[i].created_at != s[j].created_at) ==> forall|i: int, j: int|
            0 <= i < j < newest_first(s, user_id).len() ==> newest_first(s, user_id)[j].created_at
                < newest_first(s, user_id)[i].created_at,
    decreases s.len(),
{
    if s.len() > 0 {
        let rest = s.drop_first();
        assert(interactions_by_time(rest)) by {
            assert forall|i: int, j: int| 0 <= i < j < rest.len() implies rest[i].created_at
                <= rest[j].created_at by {
                assert(rest[i] == s[i + 1] && rest[j] == s[j + 1]);
            }
        }
        law_interactions_newest_first(rest, user_id);
        lemma_newest_first_members(rest, user_id);
        let rr = newest_first(rest, user_id);
        let distinct = forall|i: int, j: int|
            0 <= i < j < s.len() && s[i].user_id == user_id && s[j].user_id == user_id
                ==> s[i].created_at != s[j].created_at;
        if distinct {
            assert forall|i: int, j: int|
                0 <= i < j < rest.len() && rest[i].user_id == user_id && rest[j].user_id
                    == user_id implies rest[i].created_at != rest[j].created_at by {
                assert(rest[i] == s[i + 1] && rest[j] == s[j + 1]);
            }
        }
        if s[0].user_id == user_id {
            let r = rr.push(s[0]);
            assert forall|k: int| 0 <= k < rr.len() implies s[0].created_at
                <= #[trigger] rr[k].created_at && (distinct ==> s[0].created_at
                < rr[k].created_at) by {
                assert(interaction_of(rest, rr[k], user_id));
                let m = choose|m: int| 0 <= m < rest.len() && rest[m] == rr[k] && rr[k].user_id == user_id;
                assert(rest[m] == s[m + 1]);
            }
            assert forall|i: int, j: int| 0 <= i < j < r.len() implies r[j].created_at
                <= r[i].created_at by {
                if j < rr.len() {
                    assert(r[i] == rr[i] && r[j] == rr[j]);
                } else {
                    assert(r[i] == rr[i]);
                }
            }
            if distinct {
                assert forall|i: int, j: int| 0 <= i < j < r.len() implies r[j].created_at
                    < r[i].created_at by {
                    if j < rr.len() {
                        assert(r[i] == rr[i] && r[j] == rr[j]);
                    } else {
                        assert(r[i] == rr[i]);
                    }
                }
            }
        }
    }
}

/// When every interaction is strictly later than the one before it (as
/// `Store::new` and `Store::add_interaction` keep them), each user's
/// interactions are listed strictly newest first.
pub proof fn law_added_interactions_strictly_newest_first(s: Seq<UserInteraction>, user_id: u128)
    requires
        interactions_strictly_by_time(s),
    ensures
        forall|i: int, j: int|
            0 <= i < j < newest_first(s, user_id).len() ==> newest_first(s, user_id)[j].created_at
                < newest_first(s, user_id)[i].created_at,
{
    law_interactions_newest_first(s, user_id);
}

/// A search with neither text nor category lists every event, in the order
/// the store keeps them: ascending by start time, events that start
/// together in the order they were created.
pub proof fn law_unfiltered_search_lists_all(events: Seq<Event>, query: SearchQuery)
    requires
        query.q is None,
        query.category is None,
    ensures
        search_result(events, query) == events,
    decreases events.len(),
{
    reveal(Seq::filter);
    if events.len() > 0 {
        law_unfiltered_search_lists_all(events.drop_last(), query);
        assert(events.drop_last().push(events.last()) =~= events);
    }
}

/// Every event of `before` is still in `after`.
pub open spec fn keeps_events(before: Seq<Event>, after: Seq<Event>) -> bool {
    forall|i: int| 0 <= i < before.len() ==> after.contains(#[trigger] before[i])
}

/// Placing an event keeps every event already there.
pub proof fn law_placing_keeps_events(s: Seq<Event>, e: Event)
    ensures
        keeps_events(s, place_event(s, e)),
{
    let p = start_slot(s, e.start_time);
    lemma_start_slot_bounds(s, e.start_time);
    let t = place_event(s, e);
    assert forall|i: int| 0 <= i < s.len() implies t.contains(#[trigger] s[i]) by {
        let k = if i < p { i } else { i + 1 };
        assert(t[k] == s[i]);
    }
}

/// Keeping events is transitive, so it relates a store to every later state
/// of it.
pub proof fn law_keeps_events_transitive(a: Seq<Event>, b: Seq<Event>, c: Seq<Event>)
    requires
        keeps_events(a, b),
        keeps_events(b, c),
    ensures
        keeps_events(a, c),
{
    assert forall|i: int| 0 <= i < a.len() implies c.contains(#[trigger] a[i]) by {
        assert(b.contains(a[i]));
        let j = choose|j: int| 0 <= j < b.len() && b[j] == a[i];
        assert(c.contains(b[j]));
    }
}

/// A lookup of an event gives the same event in every later state that keeps
/// the events and their ids unique: created events are found, with the same
/// id and creation time, however many reads and writes come after.
pub proof fn law_lookup_stable(before: Seq<Event>, after: Seq<Event>, id: u128)
    requires
        event_ids_unique(before),
        event_ids_unique(after),
        keeps_events(before, after),
        has_event(before, id),
    ensures
        event_lookup(after, id) == event_lookup(before, id),
{
    let k = choose|i: int| 0 <= i < before.len() && before[i].id == id;
    assert(after.contains(before[k]));
    let j = choose|j: int| 0 <= j < after.len() && after[j] == before[k];
    assert(has_event(after, id));
    let c = choose|i: int| 0 <= i < after.len() && after[i].id == id;
    assert(c == j);
}

} // verus!
