use bytes::Bytes;
use tokio::sync::mpsc;
use websockproxy_relay::queue::Inbox;
use websockproxy_relay::relay::{AppState, FrameReport};
use websockproxy_relay::session::{
    drain_batch, extend_batch, handle_client_message, on_client_write, on_tap_incoming,
    on_tap_outgoing, on_tap_write, open_session, record_sent, tap_buffer_len, ClientMessage,
    SentTally, SessionControl, TapStep, WriterStep,
    CLIENT_OUTBOUND_DRAIN_BATCH_SIZE, CLIENT_OUTBOUND_QUEUE_CAPACITY,
};

fn frame(number: u8) -> Bytes {
    Bytes::from(vec![
        0xff, 0xff, 0xff, 0xff, 0xff, 0xff, 0x02, 0, 0, 0, 0, number, 0x08, 0x00,
    ])
}

fn relay() -> (AppState, mpsc::UnboundedReceiver<Bytes>) {
    let (tap_tx, tap_rx) = mpsc::unbounded_channel();
    (AppState::new(tap_tx), tap_rx)
}

#[test]
fn each_session_gets_a_number_of_its_own() {
    let (mut state, _tap_rx) = relay();
    let (first_tx, _first_rx) = mpsc::channel(1);
    let (second_tx, _second_rx) = mpsc::channel(1);

    assert_eq!(open_session(&mut state, first_tx), 1);
    assert_eq!(open_session(&mut state, second_tx), 2);
    assert_eq!(state.client_count(), 2);
}

#[test]
fn a_binary_message_is_counted_and_forwarded() {
    let (mut state, mut tap_rx) = relay();
    let (tx, _rx) = mpsc::channel(1);
    let id = open_session(&mut state, tx);

    let (control, report) = handle_client_message(&mut state, id, ClientMessage::Binary(frame(1)));
    assert_eq!(control, SessionControl::Continue);
    assert!(matches!(report, Some(FrameReport::Forwarded { learned: true, .. })));
    assert_eq!(tap_rx.try_recv().expect("tap frame"), frame(1));

    let short = ClientMessage::Binary(Bytes::from_static(b"short"));
    let (control, report) = handle_client_message(&mut state, id, short);
    assert_eq!(control, SessionControl::Continue);
    assert!(matches!(report, Some(FrameReport::Short)));

    let snapshot = state.traffic_snapshot().0;
    assert_eq!(snapshot.websocket_rx.frames, 2);
    assert_eq!(snapshot.websocket_rx.bytes, 14 + 5);
}

#[test]
fn only_a_close_or_a_failure_ends_the_session() {
    let (mut state, _tap_rx) = relay();

    for (message, expected) in [
        (ClientMessage::Text, SessionControl::Continue),
        (ClientMessage::Ping, SessionControl::Continue),
        (ClientMessage::Pong, SessionControl::Continue),
        (ClientMessage::Close, SessionControl::Disconnect),
        (ClientMessage::Failed, SessionControl::Disconnect),
    ] {
        let (control, report) = handle_client_message(&mut state, 1, message);
        assert_eq!(control, expected);
        assert!(report.is_none());
    }
    assert_eq!(state.traffic_snapshot().0.websocket_rx.frames, 0);
}

#[test]
fn a_batch_ends_where_the_queue_is_empty() {
    let (tx, rx) = mpsc::channel(8);
    let mut rx = Inbox::new(rx);
    for number in 1..=3 {
        tx.try_send(frame(number)).expect("room");
    }

    let drained = drain_batch(frame(0), &mut rx);
    assert_eq!(drained.batch, vec![frame(0), frame(1), frame(2), frame(3)]);
    assert!(drained.ended.is_some());

    let alone = drain_batch(frame(9), &mut rx);
    assert_eq!(alone.batch, vec![frame(9)]);
    assert!(alone.ended.is_some());
}

#[test]
fn a_batch_ends_where_it_is_full() {
    let (tx, rx) = mpsc::channel(CLIENT_OUTBOUND_QUEUE_CAPACITY);
    let mut rx = Inbox::new(rx);
    for number in 1..=40 {
        tx.try_send(frame(number)).expect("room");
    }

    let drained = drain_batch(frame(0), &mut rx);
    assert_eq!(drained.batch.len(), CLIENT_OUTBOUND_DRAIN_BATCH_SIZE);
    assert_eq!(drained.batch[31], frame(31));
    assert!(drained.ended.is_none());
    assert_eq!(rx.receiver().try_recv().expect("next frame"), frame(32));
    assert_eq!(drain_batch(frame(0), &mut rx).batch[1], frame(33));
}

#[test]
fn a_received_frame_joins_the_batch() {
    let mut batch = vec![frame(1)];
    assert!(extend_batch(&mut batch, Ok(frame(2))).is_none());
    assert_eq!(batch, vec![frame(1), frame(2)]);

    let (_tx, rx) = mpsc::channel(1);
    let mut rx = Inbox::new(rx);
    let empty = drain_batch(frame(0), &mut rx).ended.expect("an empty queue");
    assert!(extend_batch(&mut batch, Err(empty)).is_some());
    assert_eq!(batch.len(), 2);
}

#[test]
fn the_limits_of_a_session() {
    assert_eq!(CLIENT_OUTBOUND_QUEUE_CAPACITY, 128);
    assert_eq!(CLIENT_OUTBOUND_DRAIN_BATCH_SIZE, 32);
}

#[test]
fn a_tally_adds_up_frames_and_bytes() {
    let (mut state, _tap_rx) = relay();
    record_sent(&mut state, SentTally::new());
    assert_eq!(state.traffic_snapshot().0.websocket_tx.frames, 0);

    let mut tally = SentTally::new();
    tally.add_sent(60);
    tally.add_sent(1500);
    assert_eq!(tally, SentTally { frames: 2, bytes: 1560 });

    record_sent(&mut state, tally);
    let sent = state.traffic_snapshot().0.websocket_tx;
    assert_eq!((sent.frames, sent.bytes), (2, 1560));
}

#[test]
fn a_tally_stops_at_the_largest_number() {
    let mut tally = SentTally { frames: u64::MAX, bytes: u64::MAX - 1 };
    tally.add_sent(5);

    assert_eq!(tally, SentTally { frames: u64::MAX, bytes: u64::MAX });
}

#[test]
fn the_first_failed_write_to_a_client_stops_the_writer() {
    let mut tally = SentTally::new();

    assert_eq!(on_client_write(&mut tally, 60, true), WriterStep::Continue);
    assert_eq!(on_client_write(&mut tally, 40, true), WriterStep::Continue);
    assert_eq!(on_client_write(&mut tally, 99, false), WriterStep::Stop);
    assert_eq!(tally, SentTally { frames: 2, bytes: 100 });
}

#[test]
fn the_first_failed_write_to_the_tap_device_stops_the_task() {
    let (mut state, _tap_rx) = relay();

    assert_eq!(on_tap_write(&mut state, 60, true), WriterStep::Continue);
    assert_eq!(on_tap_write(&mut state, 40, false), WriterStep::Stop);
    let sent = state.traffic_snapshot().0.tap_tx;
    assert_eq!((sent.frames, sent.bytes), (1, 60));
}

#[test]
fn the_tap_buffer_has_room_for_the_header() {
    assert_eq!(tap_buffer_len(1500), 1518);
    assert_eq!(tap_buffer_len(u16::MAX), 65553);
}

#[test]
fn a_frame_for_the_tap_device_is_written() {
    assert!(matches!(on_tap_outgoing(Some(frame(4))), TapStep::Write(written) if written == frame(4)));
    assert!(matches!(on_tap_outgoing(None), TapStep::Stop));
}

#[test]
fn what_the_tap_device_gave_is_forwarded() {
    let (mut state, _tap_rx) = relay();
    let (tx, mut rx) = mpsc::channel(1);
    open_session(&mut state, tx);

    let mut buffer = vec![0_u8; 64];
    buffer[..14].copy_from_slice(&frame(5));
    assert!(matches!(on_tap_incoming(&mut state, &buffer, 0), TapStep::Wait));
    assert_eq!(state.traffic_snapshot().0.tap_rx.frames, 0);

    assert!(matches!(
        on_tap_incoming(&mut state, &buffer, 14),
        TapStep::Handled(FrameReport::Forwarded { .. })
    ));
    assert_eq!(rx.try_recv().expect("client frame"), frame(5));
    assert!(matches!(
        on_tap_incoming(&mut state, &buffer, 5),
        TapStep::Handled(FrameReport::Short)
    ));
    let received = state.traffic_snapshot().0.tap_rx;
    assert_eq!((received.frames, received.bytes), (2, 19));
}
