//! A graph-based stream processing runtime with verified scheduling logic.
//!
//! Nodes live in a computation graph; edges carry a [`Relationship`]. A cycle
//! runs every scheduled node exactly once, in non-decreasing depth order, and
//! each node answers with a [`Control`] that decides what happens next.
use vstd::prelude::*;

pub mod channel;
pub mod clock;
pub mod context;
pub mod dispatch;
pub mod event_driver;
pub mod executor;
pub mod garbage_collector;
pub mod graph;
pub mod parents;
pub mod queue;
pub mod runtime;
pub mod scheduler;
pub mod wsnl;

verus! {

/// How a child node relates to a parent node in the computation graph.
#[derive(Debug, Clone, Copy, PartialEq, Eq, Hash, Structural)]
pub enum Relationship {
    /// The child is scheduled whenever the parent broadcasts a change.
    Trigger,
    /// The child may read the parent but is never scheduled by it.
    Observe,
}

impl Relationship {
    /// Whether this is a `Trigger` relationship.
    pub fn is_trigger(&self) -> (r: bool)
        ensures
            r == (*self is Trigger),
    {
        match self {
            Relationship::Trigger => true,
            Relationship::Observe => false,
        }
    }

    /// Whether this is an `Observe` relationship.
    pub fn is_observe(&self) -> (r: bool)
        ensures
            r == (*self is Observe),
    {
        match self {
            Relationship::Trigger => false,
            Relationship::Observe => true,
        }
    }
}

/// What a node asks of the runtime after it ran.
#[derive(Debug, Clone, Copy, PartialEq, Eq, Hash, Structural)]
pub enum Control {
    /// The node changed: schedule every child with a `Trigger` relationship.
    Broadcast,
    /// The node did not change: schedule nothing.
    Unchanged,
    /// Stop the whole runtime.
    Terminate,
    /// Remove this node (and poison its children) after the cycle.
    Sweep,
}

impl Control {
    /// `Broadcast` when `changed`, `Unchanged` otherwise.
    pub fn from_changed(changed: bool) -> (c: Control)
        ensures
            changed ==> c == Control::Broadcast,
            !changed ==> c == Control::Unchanged,
    {
        if changed {
            Control::Broadcast
        } else {
            Control::Unchanged
        }
    }

    /// Whether this is `Broadcast`.
    pub fn is_broadcast(&self) -> (r: bool)
        ensures
            r == (*self is Broadcast),
    {
        match self {
            Control::Broadcast => true,
            _ => false,
        }
    }
}

impl From<bool> for Control {
    /// `Broadcast` for a change, `Unchanged` otherwise.
    fn from(changed: bool) -> (c: Control) {
        Control::from_changed(changed)
    }
}

impl vstd::std_specs::convert::FromSpecImpl<bool> for Control {
    open spec fn obeys_from_spec() -> bool {
        true
    }

    open spec fn from_spec(changed: bool) -> Control {
        if changed {
            Control::Broadcast
        } else {
            Control::Unchanged
        }
    }
}

/// Whether the executor keeps running after a cycle.
#[derive(Debug, Clone, Copy, PartialEq, Eq, Hash, Structural)]
pub enum ExecutorState {
    /// Keep cycling.
    Running,
    /// A node returned `Control::Terminate`.
    Terminated,
}

impl ExecutorState {
    /// Whether this is `Running`.
    pub fn is_running(&self) -> (r: bool)
        ensures
            r == (*self is Running),
    {
        match self {
            ExecutorState::Running => true,
            ExecutorState::Terminated => false,
        }
    }

    /// Whether this is `Terminated`.
    pub fn is_terminated(&self) -> (r: bool)
        ensures
            r == (*self is Terminated),
    {
        match self {
            ExecutorState::Running => false,
            ExecutorState::Terminated => true,
        }
    }
}

} // verus!
