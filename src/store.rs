//! The store: events, users, preferences and interactions, with the rules
//! that keep them consistent.
use vstd::prelude::*;
use crate::fresh::{new_id, now_micros};
use crate::model::{
    copy_opt_string, CreateEvent, CreateUser, CreateUserInteraction, CreateUserPreference, Event,
    StoreError, User, UserInteraction, UserInteractionWithEvent, UserPreference, UserProfile,
};
use crate::order::{
    events_by_start, find_start_slot, find_time_slot, interactions_by_time,
    lemma_place_event_sorted, lemma_place_interaction_sorted, lemma_start_slot_bounds,
    lemma_time_slot_bounds, lemma_time_slot_unique, next_time, interactions_strictly_by_time,
    place_event, place_interaction, start_slot,
};
use crate::search::{event_selected, search_result, SearchQuery};
use crate::text::{fold_opt, lower_of};

verus! {

/// No two events share an id.
pub open spec fn event_ids_unique(s: Seq<Event>) -> bool {
    forall|i: int, j: int| 0 <= i < s.len() && 0 <= j < s.len() && i != j ==> s[i].id != s[j].id
}

/// Some event of `s` has id `id`.
pub open spec fn has_event(s: Seq<Event>, id: u128) -> bool {
    exists|i: int| 0 <= i < s.len() && s[i].id == id
}

/// The event of `s` with id `id`, if there is one.
pub open spec fn find_event(s: Seq<Event>, id: u128) -> Option<Event> {
    if has_event(s, id) {
        Some(s[choose|i: int| 0 <= i < s.len() && s[i].id == id])
    } else {
        None
    }
}

/// In a sequence without repeated ids, looking up the id of an element finds
/// that element.
pub proof fn lemma_find_event_at(s: Seq<Event>, i: int)
    requires
        event_ids_unique(s),
        0 <= i < s.len(),
    ensures
        find_event(s, s[i].id) == Some(s[i]),
{
    assert(has_event(s, s[i].id));
}

/// A new event's fields pass the store's checks: title and source URL are
/// not empty, and an end time does not come before the start time.
pub open spec fn event_input_valid(p: CreateEvent) -> bool {
    &&& p.title@.len() > 0
    &&& p.source_url@.len() > 0
    &&& (p.end_time is None || p.start_time <= p.end_time->0)
}

/// The event that `p` becomes with the id and creation time the store
/// assigns.
pub open spec fn event_from(p: CreateEvent, id: u128, created_at: i64) -> Event {
    Event {
        id,
        title: p.title,
        description: p.description,
        location: p.location,
        venue: p.venue,
        source_url: p.source_url,
        start_time: p.start_time,
        end_time: p.end_time,
        category: p.category,
        created_at,
    }
}

/// What a lookup by event id returns.
pub open spec fn event_lookup(s: Seq<Event>, id: u128) -> Result<Event, StoreError> {
    match find_event(s, id) {
        Some(e) => Ok(e),
        None => Err(StoreError::NotFound),
    }
}

/// No two users share an id.
pub open spec fn user_ids_unique(s: Seq<User>) -> bool {
    forall|i: int, j: int| 0 <= i < s.len() && 0 <= j < s.len() && i != j ==> s[i].id != s[j].id
}

/// No two users share an email address.
pub open spec fn emails_unique(s: Seq<User>) -> bool {
    forall|i: int, j: int|
        0 <= i < s.len() && 0 <= j < s.len() && i != j ==> s[i].email@ != s[j].email@
}

/// Some user of `s` has id `id`.
pub open spec fn has_user(s: Seq<User>, id: u128) -> bool {
    exists|i: int| 0 <= i < s.len() && s[i].id == id
}

/// Some user of `s` is registered with `email`.
pub open spec fn email_taken(s: Seq<User>, email: Seq<char>) -> bool {
    exists|i: int| 0 <= i < s.len() && s[i].email@ == email
}

/// The user of `s` with id `id`, if there is one.
pub open spec fn find_user(s: Seq<User>, id: u128) -> Option<User> {
    if has_user(s, id) {
        Some(s[choose|i: int| 0 <= i < s.len() && s[i].id == id])
    } else {
        None
    }
}

/// What a lookup by user id returns.
pub open spec fn user_lookup(s: Seq<User>, id: u128) -> Result<User, StoreError> {
    match find_user(s, id) {
        Some(u) => Ok(u),
        None => Err(StoreError::NotFound),
    }
}

/// The user that `p` becomes with the id and creation time the store
/// assigns.
pub open spec fn user_from(p: CreateUser, id: u128, created_at: i64) -> User {
    User {
        id,
        email: p.email,
        name: p.name,
        location_preference: p.location_preference,
        created_at,
    }
}

/// `p` is the preference of user `user_id` for `category`.
pub open spec fn pref_is(p: UserPreference, user_id: u128, category: Seq<char>) -> bool {
    p.user_id == user_id && p.category@ == category
}

/// No user has two preferences for one category.
pub open spec fn pref_keys_unique(s: Seq<UserPreference>) -> bool {
    forall|i: int, j: int|
        0 <= i < s.len() && 0 <= j < s.len() && i != j ==> !pref_is(
            s[j],
            s[i].user_id,
            s[i].category@,
        )
}

/// Some preference of `s` belongs to `user_id` and `category`.
pub open spec fn has_pref(s: Seq<UserPreference>, user_id: u128, category: Seq<char>) -> bool {
    exists|i: int| 0 <= i < s.len() && pref_is(s[i], user_id, category)
}

/// No two preferences share an id.
pub open spec fn pref_ids_unique(s: Seq<UserPreference>) -> bool {
    forall|i: int, j: int| 0 <= i < s.len() && 0 <= j < s.len() && i != j ==> s[i].id != s[j].id
}

/// Some preference of `s` has id `id`.
pub open spec fn has_pref_id(s: Seq<UserPreference>, id: u128) -> bool {
    exists|i: int| 0 <= i < s.len() && s[i].id == id
}

/// The position of the preference of `user_id` for `category`, when
/// `has_pref` holds.
pub open spec fn pref_index(s: Seq<UserPreference>, user_id: u128, category: Seq<char>) -> int {
    choose|i: int| 0 <= i < s.len() && pref_is(s[i], user_id, category)
}

/// The preference that `p` becomes for `user_id` with the id and creation
/// time the store assigns.
pub open spec fn pref_from(
    user_id: u128,
    p: CreateUserPreference,
    id: u128,
    created_at: i64,
) -> UserPreference {
    UserPreference { id, user_id, category: p.category, weight: p.weight, created_at }
}

/// The row that an upsert of `row` leaves: the existing row for its user and
/// category with the new weight (its id and creation time kept), or `row`.
pub open spec fn upserted_row(s: Seq<UserPreference>, row: UserPreference) -> UserPreference {
    if has_pref(s, row.user_id, row.category@) {
        UserPreference { weight: row.weight, ..s[pref_index(s, row.user_id, row.category@)] }
    } else {
        row
    }
}

/// `s` after an upsert of `row`: the existing row for its user and category
/// is overwritten in place, or `row` is appended.
pub open spec fn upsert_pref(s: Seq<UserPreference>, row: UserPreference) -> Seq<UserPreference> {
    if has_pref(s, row.user_id, row.category@) {
        s.update(pref_index(s, row.user_id, row.category@), upserted_row(s, row))
    } else {
        s.push(row)
    }
}

/// The preferences of `user_id`, in their order in `s`.
pub open spec fn preferences_of(s: Seq<UserPreference>, user_id: u128) -> Seq<UserPreference> {
    s.filter(|p: UserPreference| p.user_id == user_id)
}

/// The interaction that `p` becomes for `user_id` with the id and creation
/// time the store assigns.
pub open spec fn interaction_from(
    user_id: u128,
    p: CreateUserInteraction,
    id: u128,
    created_at: i64,
) -> UserInteraction {
    UserInteraction {
        id,
        user_id,
        event_id: p.event_id,
        interaction_type: p.interaction_type,
        created_at,
    }
}

/// No two interactions share an id.
pub open spec fn interaction_ids_unique(s: Seq<UserInteraction>) -> bool {
    forall|i: int, j: int| 0 <= i < s.len() && 0 <= j < s.len() && i != j ==> s[i].id != s[j].id
}

/// Some interaction of `s` has id `id`.
pub open spec fn has_interaction(s: Seq<UserInteraction>, id: u128) -> bool {
    exists|i: int| 0 <= i < s.len() && s[i].id == id
}

/// The interactions of `user_id` in `s`, last first.
pub open spec fn newest_first(s: Seq<UserInteraction>, user_id: u128) -> Seq<UserInteraction>
    decreases s.len(),
{
    if s.len() == 0 {
        s
    } else {
        let rest = newest_first(s.drop_first(), user_id);
        if s[0].user_id == user_id {
            rest.push(s[0])
        } else {
            rest
        }
    }
}

/// An interaction appended at the end of `s` is the first listed for its
/// user, ahead of the ones listed before.
pub proof fn lemma_newest_first_push(s: Seq<UserInteraction>, x: UserInteraction, user_id: u128)
    ensures
        newest_first(s.push(x), user_id) == if x.user_id == user_id {
            seq![x] + newest_first(s, user_id)
        } else {
            newest_first(s, user_id)
        },
    decreases s.len(),
{
    let t = s.push(x);
    if s.len() == 0 {
        assert(t.drop_first() =~= s);
        assert(seq![x] + s =~= s.push(x));
    } else {
        assert(t.drop_first() =~= s.drop_first().push(x));
        assert(t[0] == s[0]);
        lemma_newest_first_push(s.drop_first(), x, user_id);
        let rest = newest_first(s.drop_first(), user_id);
        if x.user_id == user_id && s[0].user_id == user_id {
            assert((seq![x] + rest).push(s[0]) =~= seq![x] + rest.push(s[0]));
        }
    }
}

/// Interaction `x` joined with its event `e`.
pub open spec fn with_event(x: UserInteraction, e: Event) -> UserInteractionWithEvent {
    UserInteractionWithEvent {
        interaction_type: x.interaction_type,
        event_title: e.title,
        event_category: e.category,
        created_at: x.created_at,
    }
}

/// The interactions of `s` whose event is among `events`, each joined with
/// it, in the order of `s`.
pub open spec fn joined(s: Seq<UserInteraction>, events: Seq<Event>) -> Seq<
    UserInteractionWithEvent,
>
    decreases s.len(),
{
    if s.len() == 0 {
        Seq::empty()
    } else {
        let rest = joined(s.drop_last(), events);
        match find_event(events, s.last().event_id) {
            Some(e) => rest.push(with_event(s.last(), e)),
            None => rest,
        }
    }
}

/// The first `n` elements of `s`, or all of them when there are fewer.
pub open spec fn at_most<A>(s: Seq<A>, n: int) -> Seq<A> {
    if s.len() <= n {
        s
    } else {
        s.take(n)
    }
}

/// How many recent interactions a profile holds.
pub const RECENT_LIMIT: usize = 20;

/// The recent interactions in the profile of `user_id`: the newest
/// `RECENT_LIMIT` of its interactions whose event exists, joined with it.
pub open spec fn recent_of(
    interactions: Seq<UserInteraction>,
    events: Seq<Event>,
    user_id: u128,
) -> Seq<UserInteractionWithEvent> {
    at_most(joined(newest_first(interactions, user_id), events), RECENT_LIMIT as int)
}

/// Events, users, preferences and interactions.
pub struct Store {
    events: Vec<Event>,
    users: Vec<User>,
    preferences: Vec<UserPreference>,
    interactions: Vec<UserInteraction>,
}

impl Store {
    /// The events, ascending by start time.
    pub closed spec fn events(&self) -> Seq<Event> {
        self.events@
    }

    /// The users, in order of registration.
    pub closed spec fn users(&self) -> Seq<User> {
        self.users@
    }

    /// The preferences, in order of first recording.
    pub closed spec fn preferences(&self) -> Seq<UserPreference> {
        self.preferences@
    }

    /// The interactions, ascending by creation time.
    pub closed spec fn interactions(&self) -> Seq<UserInteraction> {
        self.interactions@
    }

    /// The store's invariant.
    pub open spec fn wf(&self) -> bool {
        &&& events_by_start(self.events())
        &&& event_ids_unique(self.events())
        &&& interactions_by_time(self.interactions())
        &&& user_ids_unique(self.users())
        &&& emails_unique(self.users())
        &&& pref_keys_unique(self.preferences())
        &&& interaction_ids_unique(self.interactions())
        &&& pref_ids_unique(self.preferences())
    }

    /// An empty store.
    pub fn new() -> (r: Store)
        ensures
            r.wf(),
            r.events().len() == 0,
            r.users().len() == 0,
            r.preferences().len() == 0,
            r.interactions().len() == 0,
    {
        Store {
            events: Vec::new(),
            users: Vec::new(),
            preferences: Vec::new(),
            interactions: Vec::new(),
        }
    }

    /// The index of the event with id `id`, if there is one.
    fn event_index(&self, id: u128) -> (r: Option<usize>)
        requires
            self.wf(),
        ensures
            r is Some ==> r->0 < self.events().len() && find_event(self.events(), id) == Some(
                self.events()[r->0 as int],
            ),
            r is None <==> !has_event(self.events(), id),
    {
        let mut i: usize = 0;
        while i < self.events.len()
            invariant
                self.wf(),
                i <= self.events@.len(),
                forall|k: int| 0 <= k < i ==> self.events@[k].id != id,
            decreases self.events@.len() - i,
        {
            if self.events[i].id == id {
                proof {
                    assert(has_event(self.events@, id));
                }
                return Some(i);
            }
            i = i + 1;
        }
        None
    }

    /// All events, ascending by start time; events that start together come
    /// in the order they were created.
    pub fn list_events(&self) -> (r: Vec<Event>)
        requires
            self.wf(),
        ensures
            r@ == self.events(),
            events_by_start(r@),
    {
        let mut r: Vec<Event> = Vec::new();
        let mut i: usize = 0;
        while i < self.events.len()
            invariant
                i <= self.events@.len(),
                r@ == self.events@.subrange(0, i as int),
            decreases self.events@.len() - i,
        {
            r.push(self.events[i].copy());
            i = i + 1;
            assert(r@ =~= self.events@.subrange(0, i as int));
        }
        assert(r@ =~= self.events@);
        r
    }

    /// The event with id `id`; `NotFound` when there is none.
    pub fn get_event(&self, id: u128) -> (r: Result<Event, StoreError>)
        requires
            self.wf(),
        ensures
            r == event_lookup(self.events(), id),
            r is Err <==> !has_event(self.events(), id),
    {
        match self.event_index(id) {
            Some(i) => Ok(self.events[i].copy()),
            None => Err(StoreError::NotFound),
        }
    }

    /// Adds the event that `payload` describes, with the given id and
    /// creation time, in start-time order after the events that do not
    /// start later. Invalid fields give `InvalidInput`, an id already in
    /// use `Conflict`; then the store is unchanged.
    pub fn insert_event(&mut self, payload: CreateEvent, id: u128, created_at: i64) -> (r: Result<
        Event,
        StoreError,
    >)
        requires
            old(self).wf(),
        ensures
            final(self).wf(),
            !event_input_valid(payload) ==> r == Err::<Event, StoreError>(StoreError::InvalidInput)
                && *final(self) == *old(self),
            event_input_valid(payload) && has_event(old(self).events(), id) ==> r == Err::<
                Event,
                StoreError,
            >(StoreError::Conflict) && *final(self) == *old(self),
            event_input_valid(payload) && !has_event(old(self).events(), id) ==> r == Ok::<
                Event,
                StoreError,
            >(event_from(payload, id, created_at)) && final(self).events() == place_event(
                old(self).events(),
                event_from(payload, id, created_at),
            ),
            final(self).users() == old(self).users(),
            final(self).preferences() == old(self).preferences(),
            final(self).interactions() == old(self).interactions(),
    {
        let bad_end = match payload.end_time {
            Some(end) => end < payload.start_time,
            None => false,
        };
        if payload.title.as_str().is_empty() || payload.source_url.as_str().is_empty() || bad_end {
            return Err(StoreError::InvalidInput);
        }
        if self.event_index(id).is_some() {
            return Err(StoreError::Conflict);
        }
        let event = Event {
            id,
            title: payload.title,
            description: payload.description,
            location: payload.location,
            venue: payload.venue,
            source_url: payload.source_url,
            start_time: payload.start_time,
            end_time: payload.end_time,
            category: payload.category,
            created_at,
        };
        let p = find_start_slot(&self.events, event.start_time);
        proof {
            lemma_place_event_sorted(self.events@, event);
            lemma_start_slot_bounds(self.events@, event.start_time);
        }
        self.events.insert(p, event.copy());
        proof {
            let s = old(self).events@;
            let t = self.events@;
            assert forall|i: int, j: int|
                0 <= i < t.len() && 0 <= j < t.len() && i != j implies t[i].id != t[j].id by {
                if i != p && j != p {
                    let i0 = if i < p { i } else { i - 1 };
                    let j0 = if j < p { j } else { j - 1 };
                    assert(t[i] == s[i0] && t[j] == s[j0]);
                } else if i == p {
                    let j0 = if j < p { j } else { j - 1 };
                    assert(t[j] == s[j0]);
                } else {
                    let i0 = if i < p { i } else { i - 1 };
                    assert(t[i] == s[i0]);
                }
            }
        }
        Ok(event)
    }

    /// Creates an event from `payload` with a fresh random id and the
    /// current time as its creation time; see `insert_event`.
    pub fn create_event(&mut self, payload: CreateEvent) -> (r: Result<Event, StoreError>)
        requires
            old(self).wf(),
        ensures
            final(self).wf(),
            !event_input_valid(payload) ==> r == Err::<Event, StoreError>(StoreError::InvalidInput)
                && *final(self) == *old(self),
            r is Ok ==> find_event(final(self).events(), r->Ok_0.id) == Some(r->Ok_0)
                && final(self).events() == place_event(old(self).events(), r->Ok_0)
                && r->Ok_0 == event_from(payload, r->Ok_0.id, r->Ok_0.created_at),
            r is Err ==> *final(self) == *old(self),
            event_input_valid(payload) ==> r is Ok || r == Err::<Event, StoreError>(
                StoreError::Conflict,
            ),
            event_input_valid(payload) && old(self).events().len() == 0 ==> r is Ok,
            final(self).users() == old(self).users(),
            final(self).preferences() == old(self).preferences(),
            final(self).interactions() == old(self).interactions(),
    {
        let id = new_id();
        let created_at = now_micros();
        let r = self.insert_event(payload, id, created_at);
        proof {
            if r is Ok {
                let slot = start_slot(old(self).events(), r->Ok_0.start_time);
                lemma_start_slot_bounds(old(self).events(), r->Ok_0.start_time);
                lemma_find_event_at(self.events(), slot);
            }
        }
        r
    }

    /// The events that `query` selects, ascending by start time.
    pub fn search_events(&self, query: &SearchQuery) -> (r: Vec<Event>)
        requires
            self.wf(),
        ensures
            r@ == search_result(self.events(), *query),
    {
        let folded_q = fold_opt(&query.q);
        let mut r: Vec<Event> = Vec::new();
        let mut i: usize = 0;
        while i < self.events.len()
            invariant
                i <= self.events@.len(),
                folded_q is Some <==> query.q is Some,
                query.q is Some ==> folded_q->0@ == lower_of(query.q->0@),
                r@ == search_result(self.events@.subrange(0, i as int), *query),
            decreases self.events@.len() - i,
        {
            let keep = event_selected(&self.events[i], query, &folded_q);
            if keep {
                r.push(self.events[i].copy());
            }
            proof {
                let s = self.events@.subrange(0, i + 1);
                assert(s.drop_last() =~= self.events@.subrange(0, i as int));
                assert(s.last() == self.events@[i as int]);
                reveal(Seq::filter);
            }
            i = i + 1;
        }
        assert(self.events@.subrange(0, i as int) =~= self.events@);
        r
    }

    /// The index of the user with id `id`, if there is one.
    fn user_index(&self, id: u128) -> (r: Option<usize>)
        requires
            self.wf(),
        ensures
            r is Some ==> r->0 < self.users().len() && find_user(self.users(), id) == Some(
                self.users()[r->0 as int],
            ),
            r is None <==> !has_user(self.users(), id),
    {
        let mut i: usize = 0;
        while i < self.users.len()
            invariant
                self.wf(),
                i <= self.users@.len(),
                forall|k: int| 0 <= k < i ==> self.users@[k].id != id,
            decreases self.users@.len() - i,
        {
            if self.users[i].id == id {
                proof {
                    assert(has_user(self.users@, id));
                }
                return Some(i);
            }
            i = i + 1;
        }
        None
    }

    /// Whether a user is registered with `email`.
    fn email_registered(&self, email: &String) -> (r: bool)
        ensures
            r == email_taken(self.users(), email@),
    {
        let mut i: usize = 0;
        while i < self.users.len()
            invariant
                i <= self.users@.len(),
                forall|k: int| 0 <= k < i ==> self.users@[k].email@ != email@,
            decreases self.users@.len() - i,
        {
            if self.users[i].email.eq(email) {
                return true;
            }
            i = i + 1;
        }
        false
    }

    /// Registers the user that `payload` describes, with the given id and
    /// creation time. An empty email gives `InvalidInput`; an email that is
    /// already registered, or an id already in use, gives `Conflict`; then
    /// the store is unchanged.
    pub fn insert_user(&mut self, payload: CreateUser, id: u128, created_at: i64) -> (r: Result<
        User,
        StoreError,
    >)
        requires
            old(self).wf(),
        ensures
            final(self).wf(),
            payload.email@.len() == 0 ==> r == Err::<User, StoreError>(StoreError::InvalidInput),
            payload.email@.len() > 0 && (email_taken(old(self).users(), payload.email@) || has_user(
                old(self).users(),
                id,
            )) ==> r == Err::<User, StoreError>(StoreError::Conflict),
            payload.email@.len() > 0 && !email_taken(old(self).users(), payload.email@)
                && !has_user(old(self).users(), id) ==> r == Ok::<User, StoreError>(
                user_from(payload, id, created_at),
            ) && final(self).users() == old(self).users().push(user_from(payload, id, created_at)),
            r is Err ==> *final(self) == *old(self),
            final(self).events() == old(self).events(),
            final(self).preferences() == old(self).preferences(),
            final(self).interactions() == old(self).interactions(),
    {
        if payload.email.as_str().is_empty() {
            return Err(StoreError::InvalidInput);
        }
        if self.email_registered(&payload.email) || self.user_index(id).is_some() {
            return Err(StoreError::Conflict);
        }
        let user = User {
            id,
            email: payload.email,
            name: payload.name,
            location_preference: payload.location_preference,
            created_at,
        };
        self.users.push(user.copy());
        proof {
            let s = old(self).users@;
            let t = self.users@;
            assert forall|i: int| 0 <= i < s.len() implies t[i] == s[i] && s[i].id != id
                && s[i].email@ != user.email@ by {
                assert(t[i] == s[i]);
            }
        }
        Ok(user)
    }

    /// Registers a user from `payload` with a fresh random id and the
    /// current time as its creation time; see `insert_user`.
    pub fn create_user(&mut self, payload: CreateUser) -> (r: Result<User, StoreError>)
        requires
            old(self).wf(),
        ensures
            final(self).wf(),
            payload.email@.len() == 0 ==> r == Err::<User, StoreError>(StoreError::InvalidInput),
            payload.email@.len() > 0 && email_taken(old(self).users(), payload.email@) ==> r
                == Err::<User, StoreError>(StoreError::Conflict),
            payload.email@.len() > 0 && !email_taken(old(self).users(), payload.email@) ==> r is Ok
                || r == Err::<User, StoreError>(StoreError::Conflict),
            payload.email@.len() > 0 && old(self).users().len() == 0 ==> r is Ok,
            r is Ok ==> r->Ok_0 == user_from(payload, r->Ok_0.id, r->Ok_0.created_at)
                && final(self).users() == old(self).users().push(r->Ok_0),
            r is Err ==> *final(self) == *old(self),
            final(self).events() == old(self).events(),
            final(self).preferences() == old(self).preferences(),
            final(self).interactions() == old(self).interactions(),
    {
        let id = new_id();
        let created_at = now_micros();
        self.insert_user(payload, id, created_at)
    }

    /// The user with id `id`; `NotFound` when there is none.
    pub fn get_user(&self, id: u128) -> (r: Result<User, StoreError>)
        requires
            self.wf(),
        ensures
            r == user_lookup(self.users(), id),
            r is Err <==> !has_user(self.users(), id),
    {
        match self.user_index(id) {
            Some(i) => Ok(self.users[i].copy()),
            None => Err(StoreError::NotFound),
        }
    }

    /// The index of the preference of `user_id` for `category`, if there is
    /// one.
    fn pref_position(&self, user_id: u128, category: &String) -> (r: Option<usize>)
        requires
            self.wf(),
        ensures
            r is Some ==> r->0 == pref_index(self.preferences(), user_id, category@)
                && has_pref(self.preferences(), user_id, category@),
            r is None <==> !has_pref(self.preferences(), user_id, category@),
    {
        let mut i: usize = 0;
        while i < self.preferences.len()
            invariant
                self.wf(),
                i <= self.preferences@.len(),
                forall|k: int|
                    0 <= k < i ==> !pref_is(#[trigger] self.preferences@[k], user_id, category@),
            decreases self.preferences@.len() - i,
        {
            if self.preferences[i].user_id == user_id && self.preferences[i].category.eq(category) {
                proof {
                    let s = self.preferences@;
                    assert(pref_is(s[i as int], user_id, category@));
                    let c = pref_index(s, user_id, category@);
                    if c != i {
                        assert(!pref_is(s[c], s[i as int].user_id, s[i as int].category@));
                    }
                }
                return Some(i);
            }
            i = i + 1;
        }
        None
    }

    /// Whether some preference has id `id`.
    fn pref_id_used(&self, id: u128) -> (r: bool)
        ensures
            r == has_pref_id(self.preferences(), id),
    {
        let mut i: usize = 0;
        while i < self.preferences.len()
            invariant
                i <= self.preferences@.len(),
                forall|k: int| 0 <= k < i ==> self.preferences@[k].id != id,
            decreases self.preferences@.len() - i,
        {
            if self.preferences[i].id == id {
                return true;
            }
            i = i + 1;
        }
        false
    }

    /// Sets the weight of user `user_id` for `payload.category`. When the
    /// user already has a preference for that category, only its weight
    /// changes: it keeps its id and creation time. Otherwise a new
    /// preference is recorded with the given id and creation time, unless
    /// that id is already in use: then `Conflict`, and the store is
    /// unchanged. Returns the resulting row.
    pub fn upsert_preference(
        &mut self,
        user_id: u128,
        payload: CreateUserPreference,
        id: u128,
        created_at: i64,
    ) -> (r: Result<UserPreference, StoreError>)
        requires
            old(self).wf(),
        ensures
            final(self).wf(),
            !has_pref(old(self).preferences(), user_id, payload.category@) && has_pref_id(
                old(self).preferences(),
                id,
            ) ==> r == Err::<UserPreference, StoreError>(StoreError::Conflict) && *final(self)
                == *old(self),
            has_pref(old(self).preferences(), user_id, payload.category@) || !has_pref_id(
                old(self).preferences(),
                id,
            ) ==> r == Ok::<UserPreference, StoreError>(
                upserted_row(old(self).preferences(), pref_from(user_id, payload, id, created_at)),
            ) && final(self).preferences() == upsert_pref(
                old(self).preferences(),
                pref_from(user_id, payload, id, created_at),
            ),
            final(self).events() == old(self).events(),
            final(self).users() == old(self).users(),
            final(self).interactions() == old(self).interactions(),
    {
        let ghost row = pref_from(user_id, payload, id, created_at);
        match self.pref_position(user_id, &payload.category) {
            Some(i) => {
                let existing = self.preferences[i].copy();
                let updated = UserPreference { weight: payload.weight, ..existing };
                self.preferences.set(i, updated.copy());
                proof {
                    let s = old(self).preferences@;
                    let t = self.preferences@;
                    assert(t =~= upsert_pref(s, row));
                    assert forall|a: int, b: int|
                        0 <= a < t.len() && 0 <= b < t.len() && a != b implies !pref_is(
                        t[b],
                        t[a].user_id,
                        t[a].category@,
                    ) && t[a].id != t[b].id by {
                        assert(!pref_is(s[b], s[a].user_id, s[a].category@));
                        assert(s[a].id != s[b].id);
                    }
                }
                Ok(updated)
            },
            None => {
                if self.pref_id_used(id) {
                    return Err(StoreError::Conflict);
                }
                let row_exec = UserPreference {
                    id,
                    user_id,
                    category: payload.category,
                    weight: payload.weight,
                    created_at,
                };
                self.preferences.push(row_exec.copy());
                proof {
                    let s = old(self).preferences@;
                    let t = self.preferences@;
                    assert forall|a: int, b: int|
                        0 <= a < t.len() && 0 <= b < t.len() && a != b implies !pref_is(
                        t[b],
                        t[a].user_id,
                        t[a].category@,
                    ) && t[a].id != t[b].id by {
                        if a < s.len() && b < s.len() {
                            assert(t[a] == s[a] && t[b] == s[b]);
                        } else if a < s.len() {
                            assert(t[a] == s[a]);
                        } else {
                            assert(t[b] == s[b]);
                        }
                    }
                }
                Ok(row_exec)
            },
        }
    }

    /// Sets the weight of user `user_id` for `payload.category`, recording a
    /// new preference with a fresh random id and the current time when there
    /// is none; see `upsert_preference`. Only a new preference can fail, when
    /// its random id is already in use.
    pub fn add_preference(&mut self, user_id: u128, payload: CreateUserPreference) -> (r: Result<
        UserPreference,
        StoreError,
    >)
        requires
            old(self).wf(),
        ensures
            final(self).wf(),
            r is Err ==> r->Err_0 == StoreError::Conflict && *final(self) == *old(self),
            has_pref(old(self).preferences(), user_id, payload.category@)
                || old(self).preferences().len() == 0 ==> r is Ok,
            r is Ok && !has_pref(old(self).preferences(), user_id, payload.category@) ==> r->Ok_0
                == pref_from(user_id, payload, r->Ok_0.id, r->Ok_0.created_at) && !has_pref_id(
                old(self).preferences(),
                r->Ok_0.id,
            ),
            has_pref(old(self).preferences(), user_id, payload.category@) ==> r
                == Ok::<UserPreference, StoreError>(
                upserted_row(old(self).preferences(), pref_from(user_id, payload, 0, 0)),
            ),
            r is Ok ==> final(self).preferences() == upsert_pref(
                old(self).preferences(),
                pref_from(user_id, payload, r->Ok_0.id, r->Ok_0.created_at),
            ),
            final(self).events() == old(self).events(),
            final(self).users() == old(self).users(),
            final(self).interactions() == old(self).interactions(),
    {
        let id = new_id();
        let created_at = now_micros();
        self.upsert_preference(user_id, payload, id, created_at)
    }

    /// The preferences of user `user_id`, in the order they were first
    /// recorded.
    pub fn get_preferences(&self, user_id: u128) -> (r: Vec<UserPreference>)
        requires
            self.wf(),
        ensures
            r@ == preferences_of(self.preferences(), user_id),
    {
        let mut r: Vec<UserPreference> = Vec::new();
        let mut i: usize = 0;
        while i < self.preferences.len()
            invariant
                i <= self.preferences@.len(),
                r@ == preferences_of(self.preferences@.subrange(0, i as int), user_id),
            decreases self.preferences@.len() - i,
        {
            if self.preferences[i].user_id == user_id {
                r.push(self.preferences[i].copy());
            }
            proof {
                let s = self.preferences@.subrange(0, i + 1);
                assert(s.drop_last() =~= self.preferences@.subrange(0, i as int));
                assert(s.last() == self.preferences@[i as int]);
                reveal(Seq::filter);
            }
            i = i + 1;
        }
        assert(self.preferences@.subrange(0, i as int) =~= self.preferences@);
        r
    }

    /// Whether some interaction has id `id`.
    fn interaction_id_used(&self, id: u128) -> (r: bool)
        ensures
            r == has_interaction(self.interactions(), id),
    {
        let mut i: usize = 0;
        while i < self.interactions.len()
            invariant
                i <= self.interactions@.len(),
                forall|k: int| 0 <= k < i ==> self.interactions@[k].id != id,
            decreases self.interactions@.len() - i,
        {
            if self.interactions[i].id == id {
                return true;
            }
            i = i + 1;
        }
        false
    }

    /// Records that user `user_id` acted on an event, with the given id and
    /// creation time, after every interaction not created later. The event
    /// id is not checked against the events. The time is taken as given, so
    /// it may equal a stored one; `add_interaction_at` picks a strictly
    /// later one. An id already in use gives `Conflict`, and the store is
    /// unchanged.
    pub fn record_interaction(
        &mut self,
        user_id: u128,
        payload: CreateUserInteraction,
        id: u128,
        created_at: i64,
    ) -> (r: Result<UserInteraction, StoreError>)
        requires
            old(self).wf(),
        ensures
            final(self).wf(),
            has_interaction(old(self).interactions(), id) ==> r == Err::<
                UserInteraction,
                StoreError,
            >(StoreError::Conflict) && *final(self) == *old(self),
            !has_interaction(old(self).interactions(), id) ==> r == Ok::<
                UserInteraction,
                StoreError,
            >(interaction_from(user_id, payload, id, created_at)) && final(self).interactions()
                == place_interaction(old(self).interactions(), r->Ok_0),
            final(self).events() == old(self).events(),
            final(self).users() == old(self).users(),
            final(self).preferences() == old(self).preferences(),
    {
        if self.interaction_id_used(id) {
            return Err(StoreError::Conflict);
        }
        let x = UserInteraction {
            id,
            user_id,
            event_id: payload.event_id,
            interaction_type: payload.interaction_type,
            created_at,
        };
        let p = find_time_slot(&self.interactions, created_at);
        proof {
            lemma_place_interaction_sorted(self.interactions@, x);
            lemma_time_slot_bounds(self.interactions@, created_at);
        }
        self.interactions.insert(p, x.copy());
        proof {
            let s = old(self).interactions@;
            let t = self.interactions@;
            assert forall|i: int, j: int|
                0 <= i < t.len() && 0 <= j < t.len() && i != j implies t[i].id != t[j].id by {
                if i != p && j != p {
                    let i0 = if i < p { i } else { i - 1 };
                    let j0 = if j < p { j } else { j - 1 };
                    assert(t[i] == s[i0] && t[j] == s[j0]);
                } else if i == p {
                    let j0 = if j < p { j } else { j - 1 };
                    assert(t[j] == s[j0]);
                } else {
                    let i0 = if i < p { i } else { i - 1 };
                    assert(t[i] == s[i0]);
                }
            }
        }
        Ok(x)
    }

    /// The creation time for a new interaction when the clock reads `now`;
    /// see `next_time`.
    pub fn next_interaction_time(&self, now: i64) -> (r: Option<i64>)
        requires
            self.wf(),
        ensures
            r == next_time(self.interactions(), now),
            r is Some ==> forall|i: int|
                0 <= i < self.interactions().len() ==> #[trigger] self.interactions()[i].created_at
                    < r->0,
    {
        let n = self.interactions.len();
        if n == 0 {
            return Some(now);
        }
        let newest = self.interactions[n - 1].created_at;
        if newest == i64::MAX {
            None
        } else if newest < now {
            Some(now)
        } else {
            Some(newest + 1)
        }
    }

    /// Records that user `user_id` acted on an event, with the given id, at
    /// the creation time that `next_time` gives for a clock reading `now`:
    /// strictly later than every stored interaction, so the new interaction
    /// goes last. `TimeExhausted` when there is no such time; then the store
    /// is unchanged.
    pub fn add_interaction_at(
        &mut self,
        user_id: u128,
        payload: CreateUserInteraction,
        id: u128,
        now: i64,
    ) -> (r: Result<UserInteraction, StoreError>)
        requires
            old(self).wf(),
        ensures
            final(self).wf(),
            next_time(old(self).interactions(), now) is None ==> r == Err::<
                UserInteraction,
                StoreError,
            >(StoreError::TimeExhausted) && *final(self) == *old(self),
            next_time(old(self).interactions(), now) is Some && has_interaction(
                old(self).interactions(),
                id,
            ) ==> r == Err::<UserInteraction, StoreError>(StoreError::Conflict) && *final(self)
                == *old(self),
            next_time(old(self).interactions(), now) is Some && !has_interaction(
                old(self).interactions(),
                id,
            ) ==> r == Ok::<UserInteraction, StoreError>(
                interaction_from(
                    user_id,
                    payload,
                    id,
                    next_time(old(self).interactions(), now)->0,
                ),
            ) && final(self).interactions() == old(self).interactions().push(r->Ok_0),
            final(self).events() == old(self).events(),
            final(self).users() == old(self).users(),
            final(self).preferences() == old(self).preferences(),
    {
        match self.next_interaction_time(now) {
            None => Err(StoreError::TimeExhausted),
            Some(t) => {
                let ghost s = self.interactions@;
                let r = self.record_interaction(user_id, payload, id, t);
                proof {
                    if r is Ok {
                        lemma_time_slot_unique(s, t, s.len() as int);
                        assert(s.insert(s.len() as int, r->Ok_0) =~= s.push(r->Ok_0));
                    }
                }
                r
            },
        }
    }

    /// Records an interaction with a fresh random id, at the current time
    /// or, when the clock does not read later than the newest stored
    /// interaction, one microsecond after it; see `add_interaction_at`. The
    /// new interaction is strictly later than every stored one, and is the
    /// first that `get_interactions` lists for its user.
    pub fn add_interaction(&mut self, user_id: u128, payload: CreateUserInteraction) -> (r: Result<
        UserInteraction,
        StoreError,
    >)
        requires
            old(self).wf(),
        ensures
            final(self).wf(),
            r == Err::<UserInteraction, StoreError>(StoreError::TimeExhausted) <==> old(
                self,
            ).interactions().len() > 0 && old(self).interactions().last().created_at == i64::MAX,
            r is Err ==> (r->Err_0 == StoreError::TimeExhausted || r->Err_0 == StoreError::Conflict)
                && *final(self) == *old(self),
            r == Err::<UserInteraction, StoreError>(StoreError::Conflict) ==> old(
                self,
            ).interactions().len() > 0,
            r is Ok ==> !has_interaction(old(self).interactions(), r->Ok_0.id),
            r is Ok ==> r->Ok_0 == interaction_from(
                user_id,
                payload,
                r->Ok_0.id,
                r->Ok_0.created_at,
            ) && final(self).interactions() == old(self).interactions().push(r->Ok_0),
            r is Ok ==> forall|i: int|
                0 <= i < old(self).interactions().len() ==> #[trigger] old(
                    self,
                ).interactions()[i].created_at < r->Ok_0.created_at,
            r is Ok ==> newest_first(final(self).interactions(), user_id) == seq![r->Ok_0]
                + newest_first(old(self).interactions(), user_id),
            r is Ok && interactions_strictly_by_time(old(self).interactions())
                ==> interactions_strictly_by_time(final(self).interactions()),
            final(self).events() == old(self).events(),
            final(self).users() == old(self).users(),
            final(self).preferences() == old(self).preferences(),
    {
        let id = new_id();
        let now = now_micros();
        let ghost s = self.interactions@;
        let r = self.add_interaction_at(user_id, payload, id, now);
        proof {
            if r is Ok {
                let x = r->Ok_0;
                lemma_newest_first_push(s, x, user_id);
                assert forall|i: int| 0 <= i < s.len() implies #[trigger] s[i].created_at
                    < x.created_at by {
                    if i < s.len() - 1 {
                        assert(s[i].created_at <= s.last().created_at);
                    }
                }
            }
        }
        r
    }

    /// The interactions of user `user_id`, newest first; interactions
    /// created at the same instant come last-recorded first.
    pub fn get_interactions(&self, user_id: u128) -> (r: Vec<UserInteraction>)
        requires
            self.wf(),
        ensures
            r@ == newest_first(self.interactions(), user_id),
    {
        let n = self.interactions.len();
        let mut r: Vec<UserInteraction> = Vec::new();
        let mut i: usize = n;
        while i > 0
            invariant
                n == self.interactions@.len(),
                i <= n,
                r@ == newest_first(self.interactions@.subrange(i as int, n as int), user_id),
            decreases i,
        {
            i = i - 1;
            if self.interactions[i].user_id == user_id {
                r.push(self.interactions[i].copy());
            }
            proof {
                let s = self.interactions@.subrange(i as int, n as int);
                assert(s.drop_first() =~= self.interactions@.subrange(i + 1, n as int));
                assert(s[0] == self.interactions@[i as int]);
            }
        }
        assert(self.interactions@.subrange(0, n as int) =~= self.interactions@);
        r
    }

    /// The profile of user `user_id`: the user, all of its preferences, and
    /// its newest `RECENT_LIMIT` interactions whose event exists, each with
    /// the event's title and category. `NotFound` exactly when there is no
    /// such user, whatever preferences or interactions name that id.
    pub fn get_user_profile(&self, user_id: u128) -> (r: Result<UserProfile, StoreError>)
        requires
            self.wf(),
        ensures
            r is Err <==> !has_user(self.users(), user_id),
            r is Err ==> r->Err_0 == StoreError::NotFound,
            r is Ok ==> Some(r->Ok_0.user) == find_user(self.users(), user_id)
                && r->Ok_0.preferences@ == preferences_of(self.preferences(), user_id)
                && r->Ok_0.recent_interactions@ == recent_of(
                self.interactions(),
                self.events(),
                user_id,
            ),
    {
        let user = match self.user_index(user_id) {
            Some(i) => self.users[i].copy(),
            None => {
                return Err(StoreError::NotFound);
            },
        };
        let preferences = self.get_preferences(user_id);
        let mine = self.get_interactions(user_id);
        let mut recent: Vec<UserInteractionWithEvent> = Vec::new();
        let mut i: usize = 0;
        while i < mine.len()
            invariant
                self.wf(),
                i <= mine@.len(),
                recent@ == at_most(
                    joined(mine@.subrange(0, i as int), self.events@),
                    RECENT_LIMIT as int,
                ),
            decreases mine@.len() - i,
        {
            let ghost before = joined(mine@.subrange(0, i as int), self.events@);
            proof {
                let s = mine@.subrange(0, i + 1);
                assert(s.drop_last() =~= mine@.subrange(0, i as int));
                assert(s.last() == mine@[i as int]);
            }
            if recent.len() < RECENT_LIMIT {
                match self.event_index(mine[i].event_id) {
                    Some(k) => {
                        let x = &mine[i];
                        let e = &self.events[k];
                        recent.push(
                            UserInteractionWithEvent {
                                interaction_type: x.interaction_type.clone(),
                                event_title: e.title.clone(),
                                event_category: copy_opt_string(&e.category),
                                created_at: x.created_at,
                            },
                        );
                    },
                    None => {},
                }
            } else {
                proof {
                    let after = joined(mine@.subrange(0, i + 1), self.events@);
                    assert(at_most(after, RECENT_LIMIT as int) =~= at_most(
                        before,
                        RECENT_LIMIT as int,
                    ));
                }
            }
            i = i + 1;
        }
        assert(mine@.subrange(0, i as int) =~= mine@);
        Ok(UserProfile { user, preferences, recent_interactions: recent })
    }
}

} // verus!
