use wavelet::wsnl::route_delivery;
use wavelet::wsnl::{route_poll_step, RecvOutcome, RouteStep};
use wavelet::channel::Channel;
use wavelet::wsnl::route_receive;
use wavelet::wsnl::{logic_step, stream_control, switch_step, LogicOp, SwitchSource};
use wavelet::Control;

/// A logic node fed by two inputs, as it goes through cycles.
struct LogicNode {
    op: LogicOp,
    value: bool,
}

impl LogicNode {
    fn cycle(&mut self, left: bool, right: bool) -> Control {
        let (v, c) = logic_step(self.op, left, right, self.value);
        self.value = v;
        c
    }
}

#[test]
fn logic_and_follows_inputs() {
    let mut and = LogicNode { op: LogicOp::And, value: false };
    assert_eq!(and.cycle(true, false), Control::Unchanged);
    assert!(!and.value);
    assert_eq!(and.cycle(true, true), Control::Broadcast);
    assert!(and.value);
    assert_eq!(and.cycle(false, true), Control::Broadcast);
    assert!(!and.value);
    assert_eq!(and.cycle(false, false), Control::Unchanged);
    assert!(!and.value);
}

#[test]
fn logic_or_and_xor_truth_tables() {
    for (l, r) in [(false, false), (false, true), (true, false), (true, true)] {
        assert_eq!(LogicOp::Or.apply(l, r), l || r);
        assert_eq!(LogicOp::Xor.apply(l, r), l != r);
        assert_eq!(LogicOp::And.apply(l, r), l && r);
    }
}

#[test]
fn logic_node_broadcasts_only_on_change() {
    let mut xor = LogicNode { op: LogicOp::Xor, value: true };
    // true XOR false stays true: no broadcast
    assert_eq!(xor.cycle(true, false), Control::Unchanged);
    assert_eq!(xor.cycle(true, true), Control::Broadcast);
    assert!(!xor.value);
    let mut or = LogicNode { op: LogicOp::Or, value: true };
    assert_eq!(or.cycle(false, false), Control::Broadcast);
    assert!(!or.value);
}

#[test]
fn switch_change_takes_precedence() {
    // following primary; the switch turns off while both inputs changed
    assert_eq!(switch_step(true, true, false, true, true), (false, Some(SwitchSource::Secondary)));
    // switch turned on
    assert_eq!(switch_step(false, true, true, false, false), (true, Some(SwitchSource::Primary)));
}

#[test]
fn switch_follows_only_selected_input() {
    assert_eq!(switch_step(true, false, false, true, false), (true, Some(SwitchSource::Primary)));
    assert_eq!(switch_step(true, false, false, false, true), (true, None));
    assert_eq!(switch_step(false, false, true, true, false), (false, None));
    assert_eq!(switch_step(false, false, true, false, true), (false, Some(SwitchSource::Secondary)));
}

#[test]
fn stream_nodes_broadcast_when_not_empty() {
    assert_eq!(stream_control(0), Control::Unchanged);
    assert_eq!(stream_control(3), Control::Broadcast);
    assert_eq!(Control::from(true), Control::Broadcast);
    assert_eq!(Control::from(false), Control::Unchanged);
    assert!(Control::from_changed(true).is_broadcast());
}

#[test]
fn router_clears_and_schedules_an_output_once_per_cycle() {
    assert_eq!(route_delivery(3, 4), (true, 4));
    assert_eq!(route_delivery(4, 4), (false, 4));
}

#[test]
fn router_poll_steps() {
    assert_eq!(route_poll_step(2, 2, RecvOutcome::Item), RouteStep::Stop);
    assert_eq!(route_poll_step(0, 2, RecvOutcome::Item), RouteStep::Deliver);
    assert_eq!(route_poll_step(1, 2, RecvOutcome::Empty), RouteStep::Stop);
    assert_eq!(route_poll_step(1, 2, RecvOutcome::Closed), RouteStep::Sweep);
}

#[test]
fn router_receives_up_to_the_limit_then_sees_the_close() {
    let chan: Channel<u32> = Channel::new(8);
    for i in 0..5 {
        chan.try_send(i).unwrap();
    }
    assert_eq!(route_receive(&chan, 3), (vec![0, 1, 2], false));
    assert_eq!(route_receive(&chan, 3), (vec![3, 4], false));
    assert!(chan.remove_sender());
    assert_eq!(route_receive(&chan, 3), (Vec::new(), true));
    assert_eq!(route_receive(&chan, 0), (Vec::new(), false));
}
