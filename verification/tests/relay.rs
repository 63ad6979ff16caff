use bytes::Bytes;
use tokio::sync::mpsc::error::TryRecvError;
use tokio::sync::mpsc;
use websockproxy_relay::mac::MacAddress;
use websockproxy_relay::queue::QueueError;
use websockproxy_relay::relay::{handle_client_frame, handle_tap_frame, AppState, FrameReport};

const ONE: [u8; 6] = [0x02, 0x00, 0x00, 0x00, 0x00, 0x01];
const TWO: [u8; 6] = [0x02, 0x00, 0x00, 0x00, 0x00, 0x02];
const UNKNOWN: [u8; 6] = [0x02, 0x00, 0x00, 0x00, 0x00, 0x99];

fn ethernet_frame(destination: [u8; 6], source: [u8; 6]) -> Bytes {
    ethernet_frame_with_payload(destination, source, &[0x08, 0x00])
}

fn ethernet_frame_with_payload(destination: [u8; 6], source: [u8; 6], payload: &[u8]) -> Bytes {
    let mut frame = Vec::with_capacity(14);
    frame.extend_from_slice(&destination);
    frame.extend_from_slice(&source);
    frame.extend_from_slice(payload);
    Bytes::from(frame)
}

fn only_outcome(report: &FrameReport) -> &Result<(), QueueError> {
    match report {
        FrameReport::Forwarded { clients, .. } if clients.len() == 1 => clients[0].1.outcome(),
        _ => panic!("the frame went to one client"),
    }
}

fn targets(report: &FrameReport) -> Vec<u64> {
    match report {
        FrameReport::Short => Vec::new(),
        FrameReport::Forwarded { clients, .. } => {
            let mut ids: Vec<u64> = clients.iter().map(|(id, _)| *id).collect();
            ids.sort_unstable();
            ids
        }
    }
}

#[test]
fn client_broadcast_floods_to_other_clients_and_tap_without_echo() {
    let (tap_tx, mut tap_rx) = mpsc::unbounded_channel();
    let mut state = AppState::new(tap_tx);

    let (client_one_tx, mut client_one_rx) = mpsc::channel(1);
    let (client_two_tx, mut client_two_rx) = mpsc::channel(1);
    state.register_client(1, client_one_tx);
    state.register_client(2, client_two_tx);

    let frame = ethernet_frame([0xff; 6], [0x02, 0x00, 0x00, 0x00, 0x00, 0x01]);
    handle_client_frame(&mut state, 1, frame.clone());

    assert_eq!(client_two_rx.try_recv().expect("other client frame"), frame);
    assert!(matches!(client_one_rx.try_recv(), Err(TryRecvError::Empty)));
    assert_eq!(tap_rx.try_recv().expect("tap frame"), frame);
}

#[test]
fn client_unknown_unicast_floods_to_other_clients_and_tap() {
    let (tap_tx, mut tap_rx) = mpsc::unbounded_channel();
    let mut state = AppState::new(tap_tx);

    let (client_one_tx, mut client_one_rx) = mpsc::channel(1);
    let (client_two_tx, mut client_two_rx) = mpsc::channel(1);
    state.register_client(1, client_one_tx);
    state.register_client(2, client_two_tx);

    let frame = ethernet_frame(
        [0x02, 0x00, 0x00, 0x00, 0x00, 0x22],
        [0x02, 0x00, 0x00, 0x00, 0x00, 0x01],
    );
    handle_client_frame(&mut state, 1, frame.clone());

    assert_eq!(client_two_rx.try_recv().expect("other client frame"), frame);
    assert!(matches!(client_one_rx.try_recv(), Err(TryRecvError::Empty)));
    assert_eq!(tap_rx.try_recv().expect("tap frame"), frame);
}

#[test]
fn tap_unknown_unicast_floods_to_all_clients() {
    let (tap_tx, _tap_rx) = mpsc::unbounded_channel();
    let mut state = AppState::new(tap_tx);

    let (client_one_tx, mut client_one_rx) = mpsc::channel(1);
    let (client_two_tx, mut client_two_rx) = mpsc::channel(1);
    state.register_client(1, client_one_tx);
    state.register_client(2, client_two_tx);

    let frame = ethernet_frame(
        [0x02, 0x00, 0x00, 0x00, 0x00, 0x99],
        [0x02, 0x00, 0x00, 0x00, 0x00, 0xaa],
    );
    handle_tap_frame(&mut state, frame.clone());

    assert_eq!(client_one_rx.try_recv().expect("first client frame"), frame);
    assert_eq!(
        client_two_rx.try_recv().expect("second client frame"),
        frame
    );
}

#[test]
fn client_queue_drops_frames_when_full() {
    let (tap_tx, _tap_rx) = mpsc::unbounded_channel();
    let mut state = AppState::new(tap_tx);

    let (client_tx, mut client_rx) = mpsc::channel(1);
    state.register_client(1, client_tx);

    let client_mac = MacAddress([0x02, 0x00, 0x00, 0x00, 0x00, 0x01]);
    assert!(state.learn_mac(1, client_mac));

    let first_frame = ethernet_frame_with_payload(
        client_mac.0,
        [0x02, 0x00, 0x00, 0x00, 0x00, 0xaa],
        &[0x01],
    );
    let second_frame = ethernet_frame_with_payload(
        client_mac.0,
        [0x02, 0x00, 0x00, 0x00, 0x00, 0xaa],
        &[0x02],
    );

    handle_tap_frame(&mut state, first_frame.clone());
    handle_tap_frame(&mut state, second_frame);

    assert_eq!(client_rx.try_recv().expect("queued frame"), first_frame);
    assert!(matches!(client_rx.try_recv(), Err(TryRecvError::Empty)));
}

#[test]
fn learning_same_mac_twice_is_a_noop() {
    let (tap_tx, _tap_rx) = mpsc::unbounded_channel();
    let mut state = AppState::new(tap_tx);

    let (client_tx, _client_rx) = mpsc::channel(1);
    state.register_client(1, client_tx);

    let mac = MacAddress([0x02, 0x00, 0x00, 0x00, 0x00, 0x01]);
    assert!(state.learn_mac(1, mac));
    assert!(!state.learn_mac(1, mac));

    let (client_id, _sender) = state.sender_for_mac(mac).expect("mac mapping");
    assert_eq!(client_id, 1);
}

#[test]
fn a_sender_is_reached_under_its_source_address() {
    let (tap_tx, mut tap_rx) = mpsc::unbounded_channel();
    let mut state = AppState::new(tap_tx);
    let (one_tx, mut one_rx) = mpsc::channel(4);
    let (two_tx, mut two_rx) = mpsc::channel(4);
    let (three_tx, mut three_rx) = mpsc::channel(4);
    state.register_client(1, one_tx);
    state.register_client(2, two_tx);
    state.register_client(3, three_tx);

    let hello = handle_client_frame(&mut state, 1, ethernet_frame([0xff; 6], ONE));
    assert!(matches!(hello, FrameReport::Forwarded { learned: true, .. }));
    assert_eq!(targets(&hello), vec![2, 3]);
    assert!(two_rx.try_recv().is_ok());
    assert!(three_rx.try_recv().is_ok());
    assert!(tap_rx.try_recv().is_ok());

    let answer = ethernet_frame(ONE, TWO);
    let report = handle_client_frame(&mut state, 2, answer.clone());
    assert_eq!(targets(&report), vec![1]);
    assert!(matches!(report, FrameReport::Forwarded { tap: None, .. }));
    assert_eq!(one_rx.try_recv().expect("answer"), answer);
    assert!(three_rx.try_recv().is_err());
    assert!(tap_rx.try_recv().is_err());

    let from_tap = ethernet_frame(ONE, UNKNOWN);
    let report = handle_tap_frame(&mut state, from_tap.clone());
    assert_eq!(targets(&report), vec![1]);
    assert_eq!(one_rx.try_recv().expect("frame from the TAP device"), from_tap);
    assert!(two_rx.try_recv().is_err());
}

#[test]
fn a_frame_to_its_own_sender_is_dropped() {
    let (tap_tx, mut tap_rx) = mpsc::unbounded_channel();
    let mut state = AppState::new(tap_tx);
    let (one_tx, mut one_rx) = mpsc::channel(1);
    let (two_tx, mut two_rx) = mpsc::channel(1);
    state.register_client(1, one_tx);
    state.register_client(2, two_tx);

    let report = handle_client_frame(&mut state, 1, ethernet_frame(ONE, ONE));
    assert!(targets(&report).is_empty());
    assert!(matches!(report, FrameReport::Forwarded { tap: None, .. }));
    assert!(one_rx.try_recv().is_err());
    assert!(two_rx.try_recv().is_err());
    assert!(tap_rx.try_recv().is_err());
}

#[test]
fn a_flooded_frame_reaches_each_once() {
    let (tap_tx, mut tap_rx) = mpsc::unbounded_channel();
    let mut state = AppState::new(tap_tx);
    let (one_tx, mut one_rx) = mpsc::channel(4);
    let (two_tx, mut two_rx) = mpsc::channel(4);
    let (full_tx, mut full_rx) = mpsc::channel(1);
    full_tx.try_send(ethernet_frame(ONE, TWO)).expect("room for one");
    state.register_client(1, one_tx);
    state.register_client(2, two_tx);
    state.register_client(3, full_tx);

    let frame = ethernet_frame([0xff; 6], ONE);
    handle_client_frame(&mut state, 1, frame.clone());
    assert!(matches!(one_rx.try_recv(), Err(TryRecvError::Empty)));
    assert_eq!(two_rx.try_recv().expect("other client frame"), frame);
    assert!(matches!(two_rx.try_recv(), Err(TryRecvError::Empty)));
    assert_eq!(full_rx.try_recv().expect("earlier frame"), ethernet_frame(ONE, TWO));
    assert!(matches!(full_rx.try_recv(), Err(TryRecvError::Empty)));
    assert_eq!(tap_rx.try_recv().expect("tap frame"), frame);
    assert!(matches!(tap_rx.try_recv(), Err(TryRecvError::Empty)));
}

#[test]
fn a_short_frame_does_nothing() {
    let (tap_tx, mut tap_rx) = mpsc::unbounded_channel();
    let mut state = AppState::new(tap_tx);
    let (one_tx, mut one_rx) = mpsc::channel(1);
    state.register_client(1, one_tx);

    let short = Bytes::from_static(&[0xff; 11]);
    assert!(matches!(
        handle_client_frame(&mut state, 2, short.clone()),
        FrameReport::Short
    ));
    assert!(matches!(handle_tap_frame(&mut state, short), FrameReport::Short));
    assert!(one_rx.try_recv().is_err());
    assert!(tap_rx.try_recv().is_err());
}

#[test]
fn a_tap_broadcast_goes_to_every_client() {
    let (tap_tx, mut tap_rx) = mpsc::unbounded_channel();
    let mut state = AppState::new(tap_tx);
    let (one_tx, mut one_rx) = mpsc::channel(1);
    let (two_tx, mut two_rx) = mpsc::channel(1);
    state.register_client(1, one_tx);
    state.register_client(2, two_tx);

    let frame = ethernet_frame([0x33, 0x33, 0, 0, 0, 1], UNKNOWN);
    assert_eq!(targets(&handle_tap_frame(&mut state, frame.clone())), vec![1, 2]);
    assert_eq!(one_rx.try_recv().expect("first"), frame);
    assert_eq!(two_rx.try_recv().expect("second"), frame);
    assert!(tap_rx.try_recv().is_err());
}

#[test]
fn an_address_moves_to_the_client_that_used_it_last() {
    let (tap_tx, _tap_rx) = mpsc::unbounded_channel();
    let mut state = AppState::new(tap_tx);
    let (one_tx, _one_rx) = mpsc::channel(1);
    let (two_tx, _two_rx) = mpsc::channel(1);
    state.register_client(1, one_tx);
    state.register_client(2, two_tx);

    assert!(state.learn_mac(1, MacAddress(ONE)));
    assert!(state.learn_mac(2, MacAddress(ONE)));
    assert_eq!(state.sender_for_mac(MacAddress(ONE)).map(|found| found.0), Some(2));
    assert!(state.learn_mac(1, MacAddress(ONE)));
    assert_eq!(state.sender_for_mac(MacAddress(ONE)).map(|found| found.0), Some(1));

    assert!(state.learn_mac(1, MacAddress(TWO)));
    assert!(state.sender_for_mac(MacAddress(ONE)).is_none());
    assert_eq!(state.sender_for_mac(MacAddress(TWO)).map(|found| found.0), Some(1));
    assert_eq!(state.client_count(), 2);
}

#[test]
fn an_unknown_client_teaches_nothing() {
    let (tap_tx, _tap_rx) = mpsc::unbounded_channel();
    let mut state = AppState::new(tap_tx);

    assert!(!state.learn_mac(7, MacAddress(ONE)));
    assert!(state.sender_for_mac(MacAddress(ONE)).is_none());
}

#[test]
fn a_departed_client_gets_no_frames() {
    let (tap_tx, _tap_rx) = mpsc::unbounded_channel();
    let mut state = AppState::new(tap_tx);
    let (one_tx, mut one_rx) = mpsc::channel(4);
    let (two_tx, mut two_rx) = mpsc::channel(4);
    state.register_client(1, one_tx);
    state.register_client(2, two_tx);
    assert!(state.learn_mac(1, MacAddress(ONE)));

    state.unregister_client(1);
    state.unregister_client(9);
    assert_eq!(state.client_count(), 1);
    assert!(state.sender_for_mac(MacAddress(ONE)).is_none());
    assert!(matches!(one_rx.try_recv(), Err(TryRecvError::Disconnected)));

    assert_eq!(targets(&handle_tap_frame(&mut state, ethernet_frame(ONE, TWO))), vec![2]);
    assert!(two_rx.try_recv().is_ok());
}

#[test]
fn a_client_that_joins_and_leaves_leaves_no_trace() {
    let (tap_tx, _tap_rx) = mpsc::unbounded_channel();
    let mut state = AppState::new(tap_tx);
    let (one_tx, _one_rx) = mpsc::channel(1);
    let (two_tx, _two_rx) = mpsc::channel(1);
    state.register_client(1, one_tx);
    assert!(state.learn_mac(1, MacAddress(ONE)));

    state.register_client(2, two_tx);
    assert!(state.learn_mac(2, MacAddress(UNKNOWN)));
    assert!(state.learn_mac(2, MacAddress(TWO)));
    state.unregister_client(2);
    assert!(state.sender_for_mac(MacAddress(TWO)).is_none());
    assert!(state.sender_for_mac(MacAddress(UNKNOWN)).is_none());
    assert_eq!(state.client_count(), 1);
    assert_eq!(state.sender_for_mac(MacAddress(ONE)).map(|found| found.0), Some(1));
    assert_eq!(targets(&handle_tap_frame(&mut state, ethernet_frame([0xff; 6], TWO))), vec![1]);
}

#[test]
fn numbers_of_clients_count_up_from_one() {
    let (tap_tx, _tap_rx) = mpsc::unbounded_channel();
    let mut state = AppState::new(tap_tx);

    assert_eq!(state.next_client_id(), 1);
    assert_eq!(state.next_client_id(), 2);
    state.next_client_id = u64::MAX;
    assert_eq!(state.next_client_id(), u64::MAX);
    assert_eq!(state.next_client_id(), 0);
}

#[test]
fn a_full_or_closed_queue_hands_the_frame_back() {
    let (tap_tx, _tap_rx) = mpsc::unbounded_channel();
    let mut state = AppState::new(tap_tx);
    let (tx, rx) = mpsc::channel(1);
    state.register_client(1, tx);

    let frame = ethernet_frame([0xff; 6], TWO);
    assert!(only_outcome(&handle_tap_frame(&mut state, frame.clone())).is_ok());
    match only_outcome(&handle_tap_frame(&mut state, frame.clone())) {
        Err(QueueError::Full(back)) => assert_eq!(*back, frame),
        other => panic!("unexpected outcome {other:?}"),
    }
    drop(rx);
    match only_outcome(&handle_tap_frame(&mut state, frame.clone())) {
        Err(QueueError::Closed(back)) => assert_eq!(*back, frame),
        other => panic!("unexpected outcome {other:?}"),
    }
}

#[test]
fn a_closed_tap_queue_hands_the_frame_back() {
    let frame = ethernet_frame(ONE, TWO);
    let (tap_tx, mut tap_rx) = mpsc::unbounded_channel();

    let mut state = AppState::new(tap_tx);
    assert!(state.send_to_tap(frame.clone()).outcome().is_ok());
    assert_eq!(tap_rx.try_recv().expect("queued frame"), frame);

    drop(tap_rx);
    match state.send_to_tap(frame.clone()).outcome() {
        Err(QueueError::Closed(back)) => assert_eq!(*back, frame),
        other => panic!("unexpected outcome {other:?}"),
    }
}

#[test]
fn a_full_queue_is_reported() {
    let (tap_tx, _tap_rx) = mpsc::unbounded_channel();
    let mut state = AppState::new(tap_tx);
    let (one_tx, _one_rx) = mpsc::channel(1);
    state.register_client(1, one_tx);

    let frame = ethernet_frame([0xff; 6], TWO);
    handle_tap_frame(&mut state, frame.clone());
    match handle_tap_frame(&mut state, frame.clone()) {
        FrameReport::Forwarded { clients, .. } => {
            assert_eq!(clients.len(), 1);
            assert!(matches!(clients[0].1.outcome(), Err(QueueError::Full(back)) if *back == frame));
        }
        FrameReport::Short => panic!("the frame holds two addresses"),
    }
}

#[test]
fn the_state_counts_each_direction() {
    let (tap_tx, _tap_rx) = mpsc::unbounded_channel();
    let mut state = AppState::new(tap_tx);
    let (one_tx, _one_rx) = mpsc::channel(1);
    state.register_client(1, one_tx);
    state.record_websocket_rx(10);
    state.record_websocket_tx_batch(2, 30);
    state.record_tap_rx(50);
    state.record_tap_tx(70);
    state.traffic_sample();

    let snapshot = state.traffic_snapshot().0;
    assert_eq!(snapshot.connected_clients, 1);
    assert_eq!((snapshot.websocket_rx.frames, snapshot.websocket_rx.bytes), (1, 10));
    assert_eq!((snapshot.websocket_tx.frames, snapshot.websocket_tx.bytes), (2, 30));
    assert_eq!((snapshot.tap_rx.frames, snapshot.tap_rx.bytes), (1, 50));
    assert_eq!((snapshot.tap_tx.frames, snapshot.tap_tx.bytes), (1, 70));
}
