//! What a typed-state node returns, and which errors a node retries on.

use crate::text::owned;
use vstd::prelude::*;

verus! {

/// The result of running a node on a typed state.
#[derive(Clone, Debug)]
pub enum NodeResult<S> {
    /// Go on with this state.
    Continue(S),
    /// Stop for outside input, with this state and reason.
    Interrupt {
        /// The state at the interruption.
        state: S,
        /// Why execution stopped.
        reason: String,
    },
    /// The run is over with this state.
    End(S),
}

impl<S> NodeResult<S> {
    /// Go on with `state`.
    pub fn cont(state: S) -> (r: Self)
        ensures
            r == NodeResult::Continue(state),
    {
        NodeResult::Continue(state)
    }

    /// Stop with `state` for the given reason.
    pub fn interrupt(state: S, reason: &str) -> (r: Self)
        ensures
            r matches NodeResult::Interrupt { state: s, reason: m } && s == state && m@ == reason@,
    {
        NodeResult::Interrupt { state, reason: owned(reason) }
    }

    /// End with `state`.
    pub fn end(state: S) -> (r: Self)
        ensures
            r == NodeResult::End(state),
    {
        NodeResult::End(state)
    }

    /// The state the result carries, whatever its kind.
    pub open spec fn carried(&self) -> S {
        match self {
            NodeResult::Continue(s) => *s,
            NodeResult::Interrupt { state, .. } => *state,
            NodeResult::End(s) => *s,
        }
    }

    /// The state carried.
    pub fn state(&self) -> (r: &S)
        ensures
            *r == self.carried(),
    {
        match self {
            NodeResult::Continue(s) => s,
            NodeResult::Interrupt { state, .. } => state,
            NodeResult::End(s) => s,
        }
    }

    /// The state carried, taken out.
    pub fn into_state(self) -> (r: S)
        ensures
            r == self.carried(),
    {
        match self {
            NodeResult::Continue(s) => s,
            NodeResult::Interrupt { state, .. } => state,
            NodeResult::End(s) => s,
        }
    }

    /// Whether execution goes on.
    pub fn is_continue(&self) -> (r: bool)
        ensures
            r == (self is Continue),
    {
        matches!(self, NodeResult::Continue(_))
    }

    /// Whether execution stopped for input.
    pub fn is_interrupt(&self) -> (r: bool)
        ensures
            r == (self is Interrupt),
    {
        matches!(self, NodeResult::Interrupt { .. })
    }

    /// Whether the run is over.
    pub fn is_end(&self) -> (r: bool)
        ensures
            r == (self is End),
    {
        matches!(self, NodeResult::End(_))
    }
}

/// Which errors should trigger a retry.
#[derive(Clone, Debug)]
pub enum RetryOn {
    /// Retry on any error.
    All,
    /// Retry only on these error kinds.
    Specific(Vec<String>),
    /// Never retry.
    Never,
}

} // verus!
