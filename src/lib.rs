//! Orchestration core of a retrieval-augmented chat server: request routing,
//! retrieval-query extraction, filtering of similarity-search results,
//! token-budgeted prompt assembly, and the per-request pipeline and
//! streaming state machines.
use vstd::prelude::*;

pub mod config;
pub mod model;
pub mod pipeline;
pub mod prompt;
pub mod retrieval;
pub mod router;
pub mod stream;

verus! {

/// Shared state handed to request handlers.
#[derive(Debug)]
pub struct AppState {
    pub state_thing: String,
}

impl Clone for AppState {
    fn clone(&self) -> (r: Self)
        ensures
            r == *self,
    {
        AppState { state_thing: self.state_thing.clone() }
    }
}

impl AppState {
    pub fn new(state_thing: String) -> (r: AppState)
        ensures
            r.state_thing@ == state_thing@,
    {
        AppState { state_thing }
    }
}

} // verus!
