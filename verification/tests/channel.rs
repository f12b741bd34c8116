use wavelet::channel::{push_outcome, receive_outcome, send_refused, was_last, Channel, ChannelClosed, TryReceiveError, TrySendError};

#[test]
fn channel_close_with_pending_messages() {
    let chan: Channel<i32> = Channel::new(100);
    for i in 0..10 {
        assert!(chan.try_send(i).is_ok());
    }
    assert!(chan.remove_sender());
    let mut got = Vec::new();
    while let Ok(v) = chan.try_receive() {
        got.push(v);
    }
    assert_eq!(got, vec![0, 1, 2, 3, 4, 5, 6, 7, 8, 9]);
    assert_eq!(chan.try_receive().unwrap_err(), TryReceiveError::ChannelClosed);
}

#[test]
fn channel_full_hands_item_back_and_force_send_overwrites() {
    let chan: Channel<i32> = Channel::new(3);
    chan.try_send(1).unwrap();
    chan.try_send(2).unwrap();
    chan.try_send(3).unwrap();
    match chan.try_send(4) {
        Err(TrySendError::ChannelFull(4)) => {}
        _ => panic!("expected a full channel"),
    }
    chan.force_send(99).unwrap();
    let mut got = Vec::new();
    while let Ok(v) = chan.try_receive() {
        got.push(v);
    }
    assert_eq!(got, vec![2, 3, 99]);
    assert_eq!(chan.try_receive().unwrap_err(), TryReceiveError::Empty);
}

#[test]
fn channel_sender_clone_count() {
    let chan: Channel<()> = Channel::new(10);
    for _ in 0..5 {
        chan.add_sender();
    }
    for _ in 0..5 {
        assert!(!chan.remove_sender());
    }
    assert!(chan.remove_sender());
    assert_eq!(chan.try_receive().unwrap_err(), TryReceiveError::ChannelClosed);
}

#[test]
fn channel_without_receiver_refuses_sends() {
    let chan: Channel<u8> = Channel::new(2);
    chan.remove_receiver();
    match chan.try_send(7) {
        Err(e) => {
            assert_eq!(e.message(), "channel closed");
            assert_eq!(e.into_inner(), 7);
        }
        Ok(()) => panic!("expected a closed channel"),
    }
    let e = chan.force_send(8).unwrap_err();
    assert_eq!(e.message(), "channel closed");
    assert_eq!(e.into_inner(), 8);
}

#[test]
fn channel_outcomes() {
    assert!(push_outcome::<u8>(Ok(())).is_ok());
    assert_eq!(push_outcome(Err(5u8)).unwrap_err().into_inner(), 5);
    assert_eq!(receive_outcome(Some(3u8), 0), Ok(3));
    assert_eq!(receive_outcome::<u8>(None, 0), Err(TryReceiveError::ChannelClosed));
    assert_eq!(receive_outcome::<u8>(None, 2), Err(TryReceiveError::Empty));
    assert_eq!(TryReceiveError::Empty.message(), "channel empty");
    assert_eq!(ChannelClosed::new(1u8).into_inner(), 1);
}

#[test]
fn channel_send_and_sender_decisions() {
    assert!(send_refused(0));
    assert!(!send_refused(1));
    assert!(!send_refused(3));
    assert!(was_last(1));
    assert!(!was_last(2));
    assert!(!was_last(0));
}

#[test]
fn channel_full_and_closed_answers_closed() {
    let chan: Channel<u8> = Channel::new(1);
    assert!(chan.try_send(1).is_ok());
    chan.remove_receiver();
    match chan.try_send(2) {
        Err(TrySendError::ChannelClosed(x)) => assert_eq!(x, 2),
        _ => panic!("expected a closed channel"),
    }
    chan.add_sender();
    assert!(!chan.remove_sender());
    assert!(chan.remove_sender());
}
