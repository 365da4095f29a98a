//! Which events a search selects.
//!
//! A search has an optional text and an optional category. The text selects
//! the events whose title or description contains it, ignoring case; the
//! category selects the events whose category equals it exactly. When both
//! are given an event must satisfy both; when neither is given every event
//! is selected. The order of the events is kept.
use vstd::prelude::*;
use crate::model::Event;
use crate::text::{contains_folded, fold, fold_opt, lower_of, text_matches_folded};

verus! {

/// The filters of a search; an absent filter selects every event.
#[derive(Clone, Debug, PartialEq, Eq)]
pub struct SearchQuery {
    /// Text looked for in titles and descriptions, ignoring case.
    pub q: Option<String>,
    /// Category that a selected event has, compared exactly.
    pub category: Option<String>,
}

impl SearchQuery {
    pub fn new(q: Option<String>, category: Option<String>) -> (r: SearchQuery)
        ensures
            r.q == q,
            r.category == category,
    {
        SearchQuery { q, category }
    }
}

/// The title or the description of `e` contains `q`, ignoring case.
pub open spec fn text_selects(q: Seq<char>, e: Event) -> bool {
    contains_folded(e.title@, q) || (e.description is Some && contains_folded(
        e.description->0@,
        q,
    ))
}

/// `e` has exactly the category `c`.
pub open spec fn category_selects(c: Seq<char>, e: Event) -> bool {
    e.category is Some && e.category->0@ == c
}

/// `query` selects `e`.
pub open spec fn selects(query: SearchQuery, e: Event) -> bool {
    &&& (query.q is None || text_selects(query.q->0@, e))
    &&& (query.category is None || category_selects(query.category->0@, e))
}

/// The events of `events` that `query` selects, in their order.
pub open spec fn search_result(events: Seq<Event>, query: SearchQuery) -> Seq<Event> {
    events.filter(|e: Event| selects(query, e))
}

/// Whether `query` selects `e`, given the query text already case-folded.
pub fn event_selected(e: &Event, query: &SearchQuery, folded_q: &Option<String>) -> (r: bool)
    requires
        folded_q is Some <==> query.q is Some,
        query.q is Some ==> folded_q->0@ == lower_of(query.q->0@),
    ensures
        r == selects(*query, *e),
{
    let text_ok = match folded_q {
        None => true,
        Some(fq) => {
            let title = fold(e.title.as_str());
            let description = fold_opt(&e.description);
            text_matches_folded(fq.as_str(), title.as_str(), &description)
        },
    };
    let category_ok = match &query.category {
        None => true,
        Some(c) => match &e.category {
            Some(ec) => ec.eq(c),
            None => false,
        },
    };
    text_ok && category_ok
}

} // verus!
