//! What every pane is drawn from.
use vstd::prelude::*;

use crate::app::AppState;
use crate::clock::Clock;
use crate::state::ViewState;
use crate::theme::Theme;

verus! {

/// Read-only snapshot passed to every leaf component.
pub struct RenderContext<'a> {
    pub state: &'a AppState,
    pub view: &'a ViewState,
    pub theme: &'a Theme,
    pub clock: &'a Clock,
    /// The search queries that the configuration stands for.
    pub queries: &'a Vec<String>,
}

impl<'a> RenderContext<'a> {
    pub fn new(
        state: &'a AppState,
        view: &'a ViewState,
        theme: &'a Theme,
        clock: &'a Clock,
        queries: &'a Vec<String>,
    ) -> (r: Self)
        ensures
            *r.state == *state,
            *r.view == *view,
            *r.theme == *theme,
            *r.clock == *clock,
            *r.queries == *queries,
    {
        RenderContext { state, view, theme, clock, queries }
    }
}

} // verus!
