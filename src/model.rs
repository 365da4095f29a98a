//! Records kept by the store, the payloads that create them, and the errors
//! that store operations report.
//!
//! Identifiers are 128-bit values (the integer form of a UUID) and instants
//! are microseconds since the Unix epoch, in UTC.
use vstd::prelude::*;

verus! {

/// A discoverable local happening.
#[derive(Clone, Debug, PartialEq, Eq)]
pub struct Event {
    pub id: u128,
    pub title: String,
    pub description: Option<String>,
    pub location: Option<String>,
    pub venue: Option<String>,
    pub source_url: String,
    pub start_time: i64,
    pub end_time: Option<i64>,
    pub category: Option<String>,
    pub created_at: i64,
}

/// What a client submits to create an event; the store adds `id` and
/// `created_at`.
#[derive(Clone, Debug, PartialEq, Eq)]
pub struct CreateEvent {
    pub title: String,
    pub description: Option<String>,
    pub location: Option<String>,
    pub venue: Option<String>,
    pub source_url: String,
    pub start_time: i64,
    pub end_time: Option<i64>,
    pub category: Option<String>,
}

/// An account used for personalisation.
#[derive(Clone, Debug, PartialEq, Eq)]
pub struct User {
    pub id: u128,
    pub email: String,
    pub name: Option<String>,
    pub location_preference: Option<String>,
    pub created_at: i64,
}

#[derive(Clone, Debug, PartialEq, Eq)]
pub struct CreateUser {
    pub email: String,
    pub name: Option<String>,
    pub location_preference: Option<String>,
}

/// A signed affinity between a user and a category: a positive weight is a
/// like, a negative one a dislike, the magnitude its strength.
#[derive(Clone, Debug, PartialEq, Eq)]
pub struct UserPreference {
    pub id: u128,
    pub user_id: u128,
    pub category: String,
    pub weight: i32,
    pub created_at: i64,
}

#[derive(Clone, Debug, PartialEq, Eq)]
pub struct CreateUserPreference {
    pub category: String,
    pub weight: i32,
}

/// A user acting on an event ("view", "save", "attend", "dismiss", or any
/// other free-text kind).
#[derive(Clone, Debug, PartialEq, Eq)]
pub struct UserInteraction {
    pub id: u128,
    pub user_id: u128,
    pub event_id: u128,
    pub interaction_type: String,
    pub created_at: i64,
}

#[derive(Clone, Debug, PartialEq, Eq)]
pub struct CreateUserInteraction {
    pub event_id: u128,
    pub interaction_type: String,
}

/// An interaction joined with the title and category of its event.
#[derive(Clone, Debug, PartialEq, Eq)]
pub struct UserInteractionWithEvent {
    pub interaction_type: String,
    pub event_title: String,
    pub event_category: Option<String>,
    pub created_at: i64,
}

/// A user together with all of their preferences and their most recent
/// interactions, newest first.
#[derive(Clone, Debug, PartialEq, Eq)]
pub struct UserProfile {
    pub user: User,
    pub preferences: Vec<UserPreference>,
    pub recent_interactions: Vec<UserInteractionWithEvent>,
}

/// Why a store operation did not succeed.
#[derive(Clone, Copy, Debug, PartialEq, Eq, Structural)]
pub enum StoreError {
    /// No row has the identifier asked for.
    NotFound,
    /// A uniqueness rule would be broken (a registered email, a used id).
    Conflict,
    /// A required field is empty, or the fields contradict each other.
    InvalidInput,
    /// The newest interaction already holds the latest representable
    /// instant, so no later one can be given to a new interaction.
    TimeExhausted,
}

impl StoreError {
    /// A short machine-readable name of the error.
    pub fn as_str(&self) -> (r: &'static str)
        ensures
            *self == StoreError::NotFound ==> r@ == "not_found"@,
            *self == StoreError::Conflict ==> r@ == "conflict"@,
            *self == StoreError::InvalidInput ==> r@ == "invalid_input"@,
            *self == StoreError::TimeExhausted ==> r@ == "time_exhausted"@,
    {
        proof {
            reveal_strlit("not_found");
            reveal_strlit("conflict");
            reveal_strlit("invalid_input");
            reveal_strlit("time_exhausted");
        }
        match self {
            StoreError::NotFound => "not_found",
            StoreError::Conflict => "conflict",
            StoreError::InvalidInput => "invalid_input",
            StoreError::TimeExhausted => "time_exhausted",
        }
    }
}

/// A copy of an optional string that equals it.
pub fn copy_opt_string(o: &Option<String>) -> (r: Option<String>)
    ensures
        r == *o,
{
    match o {
        Some(s) => Some(s.clone()),
        None => None,
    }
}

impl Event {
    /// A field-by-field copy of the event.
    pub fn copy(&self) -> (r: Event)
        ensures
            r == *self,
    {
        Event {
            id: self.id,
            title: self.title.clone(),
            description: copy_opt_string(&self.description),
            location: copy_opt_string(&self.location),
            venue: copy_opt_string(&self.venue),
            source_url: self.source_url.clone(),
            start_time: self.start_time,
            end_time: self.end_time,
            category: copy_opt_string(&self.category),
            created_at: self.created_at,
        }
    }
}

impl User {
    /// A field-by-field copy of the user.
    pub fn copy(&self) -> (r: User)
        ensures
            r == *self,
    {
        User {
            id: self.id,
            email: self.email.clone(),
            name: copy_opt_string(&self.name),
            location_preference: copy_opt_string(&self.location_preference),
            created_at: self.created_at,
        }
    }
}

impl UserPreference {
    /// A field-by-field copy of the preference.
    pub fn copy(&self) -> (r: UserPreference)
        ensures
            r == *self,
    {
        UserPreference {
            id: self.id,
            user_id: self.user_id,
            category: self.category.clone(),
            weight: self.weight,
            created_at: self.created_at,
        }
    }
}

impl UserInteraction {
    /// A field-by-field copy of the interaction.
    pub fn copy(&self) -> (r: UserInteraction)
        ensures
            r == *self,
    {
        UserInteraction {
            id: self.id,
            user_id: self.user_id,
            event_id: self.event_id,
            interaction_type: self.interaction_type.clone(),
            created_at: self.created_at,
        }
    }
}

} // verus!
