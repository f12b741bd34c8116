//! The decisions of the standard nodes: what a logic node computes and when
//! it broadcasts, and which input a switch node follows.
use crate::channel::{Channel, TryReceiveError};
use crate::Control;
use vstd::prelude::*;

verus! {

/// The boolean operation of a logic node.
#[derive(Debug, Clone, Copy, PartialEq, Eq, Structural)]
pub enum LogicOp {
    /// Both inputs.
    And,
    /// Either input.
    Or,
    /// Exactly one input.
    Xor,
}

impl LogicOp {
    /// The value of the operation on two inputs.
    pub open spec fn spec_apply(self, left: bool, right: bool) -> bool {
        match self {
            LogicOp::And => left && right,
            LogicOp::Or => left || right,
            LogicOp::Xor => left != right,
        }
    }

    /// The value of the operation on two inputs.
    pub fn apply(self, left: bool, right: bool) -> (b: bool)
        ensures
            b == self.spec_apply(left, right),
    {
        match self {
            LogicOp::And => left && right,
            LogicOp::Or => left || right,
            LogicOp::Xor => left ^ right,
        }
    }
}

/// One cycle of a logic node holding `current`: the new value is the
/// operation on the inputs, and the node broadcasts exactly when the value
/// changed.
pub fn logic_step(op: LogicOp, left: bool, right: bool, current: bool) -> (r: (bool, Control))
    ensures
        r.0 == op.spec_apply(left, right),
        r.1 == (if r.0 != current {
            Control::Broadcast
        } else {
            Control::Unchanged
        }),
{
    let new_value = op.apply(left, right);
    let changed = new_value ^ current;
    (new_value, Control::from_changed(changed))
}

/// The input a switch node takes its value from.
#[derive(Debug, Clone, Copy, PartialEq, Eq, Structural)]
pub enum SwitchSource {
    /// The primary input (the switch is on).
    Primary,
    /// The secondary input (the switch is off).
    Secondary,
}

/// One cycle of a switch node that currently follows the primary input when
/// `use_primary` holds: a change of the switch takes precedence, makes the
/// node follow the input the switch now selects and take that input's
/// value; otherwise the node takes the value of the input it follows when
/// that input changed, and does nothing else. Returns whether the node now
/// follows the primary input and which input's value it takes, if any.
pub fn switch_step(
    use_primary: bool,
    switch_changed: bool,
    switch_value: bool,
    primary_changed: bool,
    secondary_changed: bool,
) -> (r: (bool, Option<SwitchSource>))
    ensures
        switch_changed ==> r == (switch_value, Some(
            if switch_value {
                SwitchSource::Primary
            } else {
                SwitchSource::Secondary
            },
        )),
        !switch_changed && use_primary ==> r == (true, if primary_changed {
            Some(SwitchSource::Primary)
        } else {
            None
        }),
        !switch_changed && !use_primary ==> r == (false, if secondary_changed {
            Some(SwitchSource::Secondary)
        } else {
            None
        }),
{
    if switch_changed {
        if switch_value {
            (true, Some(SwitchSource::Primary))
        } else {
            (false, Some(SwitchSource::Secondary))
        }
    } else if use_primary && primary_changed {
        (true, Some(SwitchSource::Primary))
    } else if !use_primary && secondary_changed {
        (false, Some(SwitchSource::Secondary))
    } else {
        (use_primary, None)
    }
}

/// What a stream node answers after filling its output: a broadcast when
/// the output holds anything.
pub fn stream_control(len: usize) -> (c: Control)
    ensures
        c == (if len > 0 {
            Control::Broadcast
        } else {
            Control::Unchanged
        }),
{
    Control::from_changed(len > 0)
}

/// What a router node's output slot does with a delivery in `epoch`, when
/// the slot last received in `slot_epoch`: on the first delivery of a
/// cycle the output is cleared and scheduled. Returns whether this is that
/// first delivery, and the slot's new epoch.
pub fn route_delivery(slot_epoch: usize, epoch: usize) -> (r: (bool, usize))
    ensures
        r.0 == (slot_epoch != epoch),
        r.1 == epoch,
{
    (slot_epoch != epoch, epoch)
}

/// What one receive attempt gave.
#[derive(Debug, Clone, Copy, PartialEq, Eq, Structural)]
pub enum RecvOutcome {
    /// An item.
    Item,
    /// Nothing queued, but a sender is left.
    Empty,
    /// Nothing queued and no sender left.
    Closed,
}

/// What a channel router does next.
#[derive(Debug, Clone, Copy, PartialEq, Eq, Structural)]
pub enum RouteStep {
    /// Deliver the item received.
    Deliver,
    /// Stop taking items this cycle.
    Stop,
    /// Remove the router: its channel is closed.
    Sweep,
}

/// One step of a channel router that has taken `taken` items this cycle:
/// it stops once it took `poll_limit` items; otherwise it delivers an item,
/// stops on an empty channel and removes itself on a closed one.
pub fn route_poll_step(taken: usize, poll_limit: usize, outcome: RecvOutcome) -> (r: RouteStep)
    ensures
        taken >= poll_limit ==> r == RouteStep::Stop,
        taken < poll_limit && outcome == RecvOutcome::Item ==> r == RouteStep::Deliver,
        taken < poll_limit && outcome == RecvOutcome::Empty ==> r == RouteStep::Stop,
        taken < poll_limit && outcome == RecvOutcome::Closed ==> r == RouteStep::Sweep,
{
    if taken >= poll_limit {
        RouteStep::Stop
    } else {
        match outcome {
            RecvOutcome::Item => RouteStep::Deliver,
            RecvOutcome::Empty => RouteStep::Stop,
            RecvOutcome::Closed => RouteStep::Sweep,
        }
    }
}

/// The kind of a receive result.
pub fn recv_outcome<T>(r: &Result<T, TryReceiveError>) -> (o: RecvOutcome)
    ensures
        r is Ok ==> o == RecvOutcome::Item,
        *r == Err::<T, TryReceiveError>(TryReceiveError::Empty) ==> o == RecvOutcome::Empty,
        *r == Err::<T, TryReceiveError>(TryReceiveError::ChannelClosed) ==> o == RecvOutcome::Closed,
{
    match r {
        Ok(_) => RecvOutcome::Item,
        Err(TryReceiveError::Empty) => RecvOutcome::Empty,
        Err(TryReceiveError::ChannelClosed) => RecvOutcome::Closed,
    }
}

/// The channel router's answer `(items, sweep)` to the receive results
/// `received`, in order, with at most `limit` items a cycle: it took the
/// items of the leading successful receives and stopped after `limit` of
/// them or at the first failed receive, and it removes itself exactly when
/// that failed receive reported the channel closed.
pub open spec fn routed<T>(received: Seq<Result<T, TryReceiveError>>, limit: usize, items: Seq<T>, sweep: bool) -> bool {
    &&& received.len() <= limit
    &&& items.len() <= received.len() <= items.len() + 1
    &&& forall|i: int| 0 <= i < items.len() ==> received[i] == Ok::<T, TryReceiveError>(#[trigger] items[i])
    &&& received.len() == items.len() + 1 ==> received.last() is Err
    &&& received.len() == items.len() ==> items.len() == limit
    &&& sweep == (received.len() == items.len() + 1 && received.last() == Err::<T, TryReceiveError>(
        TryReceiveError::ChannelClosed,
    ))
}

/// A channel router removes itself exactly when, before it took `limit`
/// items, a receive reported the channel closed (every earlier receive
/// having given an item); the items it delivers are those of the receives
/// before that one, in order.
pub proof fn law_router_sweeps_exactly_when_closed_before_limit<T>(
    received: Seq<Result<T, TryReceiveError>>,
    limit: usize,
    items: Seq<T>,
    sweep: bool,
)
    requires
        routed(received, limit, items, sweep),
    ensures
        sweep <==> exists|i: int|
            0 <= i < limit && 0 <= i < received.len() && #[trigger] received[i] == Err::<T, TryReceiveError>(
                TryReceiveError::ChannelClosed,
            ) && forall|j: int| 0 <= j < i ==> (#[trigger] received[j]) is Ok,
        forall|i: int| 0 <= i < items.len() ==> received[i] == Ok::<T, TryReceiveError>(#[trigger] items[i]),
{
    if sweep {
        let i = items.len() as int;
        assert(received[i] == Err::<T, TryReceiveError>(TryReceiveError::ChannelClosed));
        assert forall|j: int| 0 <= j < i implies (#[trigger] received[j]) is Ok by {
            assert(received[j] == Ok::<T, TryReceiveError>(items[j]));
        }
    } else {
        assert forall|i: int|
            0 <= i < limit && 0 <= i < received.len() && #[trigger] received[i] == Err::<T, TryReceiveError>(
                TryReceiveError::ChannelClosed,
            ) implies !(forall|j: int| 0 <= j < i ==> (#[trigger] received[j]) is Ok) by {
            if i < items.len() {
                assert(received[i] == Ok::<T, TryReceiveError>(items[i]));
            } else {
                assert(i == items.len());
                assert(received.len() == items.len() + 1);
            }
        }
    }
}

/// The receiving of [`route_receive`], with the results of its receives.
fn route_receive_logged<T>(chan: &Channel<T>, poll_limit: usize) -> (r: (Vec<T>, bool, Ghost<Seq<Result<T, TryReceiveError>>>))
    ensures
        routed(r.2@, poll_limit, r.0@, r.1),
{
    let mut items: Vec<T> = Vec::new();
    let mut sweep = false;
    let ghost mut received: Seq<Result<T, TryReceiveError>> = Seq::empty();
    while items.len() < poll_limit
        invariant_except_break
            items@.len() <= poll_limit,
            received.len() == items@.len(),
            forall|i: int| 0 <= i < items@.len() ==> received[i] == Ok::<T, TryReceiveError>(#[trigger] items@[i]),
            !sweep,
        ensures
            routed(received, poll_limit, items@, sweep),
        decreases poll_limit - items@.len(),
    {
        let got = chan.try_receive();
        proof {
            received = received.push(got);
            assert(received.last() == got);
        }
        match route_poll_step(items.len(), poll_limit, recv_outcome(&got)) {
            RouteStep::Deliver => {
                match got {
                    Ok(x) => items.push(x),
                    Err(_) => {
                        break;
                    },
                }
            },
            RouteStep::Stop => {
                proof {
                    assert(got == Err::<T, TryReceiveError>(TryReceiveError::Empty)) by {
                        match got {
                            Ok(_) => {},
                            Err(TryReceiveError::Empty) => {},
                            Err(TryReceiveError::ChannelClosed) => {},
                        }
                    }
                }
                break;
            },
            RouteStep::Sweep => {
                proof {
                    assert(got == Err::<T, TryReceiveError>(TryReceiveError::ChannelClosed)) by {
                        match got {
                            Ok(_) => {},
                            Err(TryReceiveError::Empty) => {},
                            Err(TryReceiveError::ChannelClosed) => {},
                        }
                    }
                }
                sweep = true;
                break;
            },
        }
    }
    (items, sweep, Ghost(received))
}

/// One cycle of a channel router's receiving: takes items from `chan`
/// until it took `poll_limit` of them or the channel is empty or closed
/// (see [`route_poll_step`]). Returns the items in the order received and
/// whether the router is to be removed, which happens exactly when a
/// receive reported the channel closed before the limit was reached (see
/// [`routed`] and [`law_router_sweeps_exactly_when_closed_before_limit`]).
pub fn route_receive<T>(chan: &Channel<T>, poll_limit: usize) -> (r: (Vec<T>, bool))
    ensures
        r.0@.len() <= poll_limit,
        r.1 ==> r.0@.len() < poll_limit,
        exists|received: Seq<Result<T, TryReceiveError>>| #[trigger] routed(received, poll_limit, r.0@, r.1),
{
    let logged = route_receive_logged(chan, poll_limit);
    let ghost received = logged.2@;
    let r = (logged.0, logged.1);
    assert(routed(received, poll_limit, r.0@, r.1));
    r
}

} // verus!
