//! An event-discovery store: events searchable by text and category, user
//! accounts, per-category preferences and a log of user interactions, all
//! with verified contracts.
mod fresh;
pub mod laws;
pub mod model;
pub mod order;
pub mod search;
pub mod store;
pub mod text;

pub use model::{
    CreateEvent, CreateUser, CreateUserInteraction, CreateUserPreference, Event, StoreError, User,
    UserInteraction, UserInteractionWithEvent, UserPreference, UserProfile,
};
pub use search::SearchQuery;
pub use store::{Store, RECENT_LIMIT};
