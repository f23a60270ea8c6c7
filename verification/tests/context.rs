use moq_quic::connection::{MAX_RECV_BUFFER_SIZE, OUTBOUND_STREAM_ID_BASE};
use moq_quic::context::{TransportContext, WRITER_QUEUE_CAPACITY};
use moq_quic::datagram::DEFAULT_DATAGRAM_LIMIT;
use moq_quic::status::{ConnectError, TransportError};
use moq_quic::stream_writer::StreamCommand;

#[test]
fn limits_have_their_values() {
    assert_eq!(MAX_RECV_BUFFER_SIZE, 64 * 1024);
    assert_eq!(OUTBOUND_STREAM_ID_BASE, 1u64 << 62);
    assert_eq!(WRITER_QUEUE_CAPACITY, 50);
}

#[test]
fn connection_identifiers_start_at_one_and_grow() {
    let mut context = TransportContext::new();
    assert!(!context.is_connected(1));
    assert_eq!(context.register_connection(), Ok(1));
    assert_eq!(context.register_connection(), Ok(2));
    assert_eq!(context.register_connection(), Ok(3));
    assert!(context.is_connected(1));
    assert!(context.is_connected(2));
    assert!(context.is_connected(3));
    assert!(!context.is_connected(0));
    assert!(!context.is_connected(4));
}

#[test]
fn failed_handshake_registers_nothing() {
    let mut context = TransportContext::new();
    assert_eq!(
        context.complete_connect(Err(ConnectError::Resolution)),
        Err(ConnectError::Resolution)
    );
    assert_eq!(context.complete_connect(Err(ConnectError::Bind)), Err(ConnectError::Bind));
    assert_eq!(
        context.complete_connect(Err(ConnectError::Handshake)),
        Err(ConnectError::Handshake)
    );
    assert!(!context.is_connected(1));
    assert_eq!(context.complete_connect(Ok(())), Ok(1));
    assert!(context.is_connected(1));
}

#[test]
fn close_twice_reports_success_then_not_found() {
    let mut context = TransportContext::new();
    let id = context.register_connection().unwrap();
    assert_eq!(context.close(id), Ok(()));
    assert_eq!(context.close(id), Err(TransportError::NotFound));
    assert_eq!(context.close(id), Err(TransportError::NotFound));
    assert!(!context.is_connected(id));
}

#[test]
fn closed_connection_is_unknown_to_every_operation() {
    let mut context = TransportContext::new();
    let id = context.register_connection().unwrap();
    let other = context.register_connection().unwrap();
    assert_eq!(context.attach_control(id), Ok(()));
    assert_eq!(context.push_control_data(id, b"stale"), Ok(5));
    assert_eq!(context.accept_data_stream(id, 0), Ok(()));
    assert_eq!(context.push_stream_data(id, 0, b"stale"), Ok(5));
    assert_eq!(context.push_datagram(id, b"stale"), Ok(true));
    let (stream_id, _receiver) = context.open_data_stream(id).unwrap();
    assert_eq!(context.close(id), Ok(()));

    let mut dest = [0u8; 16];
    assert_eq!(context.poll(id), Err(TransportError::NotFound));
    assert_eq!(context.recv_control(id, &mut dest), Err(TransportError::NotFound));
    assert_eq!(context.recv_data(id, 0, &mut dest), Err(TransportError::NotFound));
    assert_eq!(context.recv_datagram(id, &mut dest), Err(TransportError::NotFound));
    assert_eq!(dest, [0u8; 16]);
    assert_eq!(context.push_control_data(id, b"x"), Err(TransportError::NotFound));
    assert_eq!(context.push_stream_data(id, 0, b"x"), Err(TransportError::NotFound));
    assert_eq!(context.push_datagram(id, b"x"), Err(TransportError::NotFound));
    assert_eq!(context.send_datagram(id, b"x"), Err(TransportError::NotFound));
    assert_eq!(context.next_outbound_datagram(id), Err(TransportError::NotFound));
    assert_eq!(context.dropped_datagrams(id), Err(TransportError::NotFound));
    assert_eq!(context.attach_control(id), Err(TransportError::NotFound));
    assert_eq!(context.control_open(id), Err(TransportError::NotFound));
    assert_eq!(context.end_control(id), Err(TransportError::NotFound));
    assert_eq!(context.accept_data_stream(id, 1), Err(TransportError::NotFound));
    assert_eq!(context.end_data_stream(id, 0), Err(TransportError::NotFound));
    assert_eq!(context.data_stream_ended(id, 0), Err(TransportError::NotFound));
    assert_eq!(context.close_data_stream(id, 0), Err(TransportError::NotFound));
    assert_eq!(context.list_active_data_streams(id, 10), Err(TransportError::NotFound));
    assert!(matches!(context.open_data_stream(id), Err(TransportError::NotFound)));
    assert_eq!(context.write_data_stream(id, stream_id, b"x"), Err(TransportError::NotFound));
    assert_eq!(context.finish_data_stream(id, stream_id), Err(TransportError::NotFound));

    assert!(context.is_connected(other));
    assert_eq!(context.poll(other), Ok(0));
    assert_eq!(context.recv_control(other, &mut dest), Ok(0));
}

#[test]
fn closed_identifier_is_not_handed_out_again() {
    let mut context = TransportContext::new();
    let first = context.register_connection().unwrap();
    assert_eq!(context.push_control_data(first, b"old"), Ok(3));
    assert_eq!(context.close(first), Ok(()));
    let second = context.register_connection().unwrap();
    assert!(second > first);
    let mut dest = [0u8; 8];
    assert_eq!(context.recv_control(second, &mut dest), Ok(0));
    assert_eq!(context.recv_control(first, &mut dest), Err(TransportError::NotFound));
}

#[test]
fn closing_a_connection_closes_its_writers() {
    let mut context = TransportContext::new();
    let id = context.register_connection().unwrap();
    let (_stream_id, mut receiver) = context.open_data_stream(id).unwrap();
    assert_eq!(context.close(id), Ok(()));
    assert!(matches!(
        receiver.try_recv(),
        Err(tokio::sync::mpsc::error::TryRecvError::Disconnected)
    ));
}

#[test]
fn cleanup_removes_every_connection() {
    let mut context = TransportContext::new();
    let a = context.register_connection().unwrap();
    let b = context.register_connection().unwrap();
    context.cleanup();
    assert!(!context.is_connected(a));
    assert!(!context.is_connected(b));
    assert_eq!(context.close(a), Err(TransportError::NotFound));
    assert_eq!(context.register_connection(), Ok(3));
    context.cleanup();
    context.cleanup();
    assert!(!context.is_connected(3));
}

#[test]
fn control_stream_is_attached_once() {
    let mut context = TransportContext::new();
    let id = context.register_connection().unwrap();
    assert_eq!(context.control_open(id), Ok(false));
    assert_eq!(context.attach_control(id), Ok(()));
    assert_eq!(context.control_open(id), Ok(true));
    assert_eq!(context.attach_control(id), Err(TransportError::Conflict));
    assert_eq!(context.control_open(id), Ok(true));
    assert_eq!(context.control_ended(id), Ok(false));
    assert_eq!(context.end_control(id), Ok(()));
    assert_eq!(context.control_ended(id), Ok(true));
    assert_eq!(context.control_ended(id + 1), Err(TransportError::NotFound));
    assert!(context.is_connected(id));
}

#[test]
fn control_bytes_are_read_in_arrival_order() {
    let mut context = TransportContext::new();
    let id = context.register_connection().unwrap();
    assert_eq!(context.push_control_data(id, &[1, 2, 3]), Ok(3));
    assert_eq!(context.push_control_data(id, &[4, 5]), Ok(2));
    let mut dest = [0u8; 4];
    assert_eq!(context.recv_control(id, &mut dest), Ok(4));
    assert_eq!(dest, [1, 2, 3, 4]);
    assert_eq!(context.recv_control(id, &mut dest), Ok(1));
    assert_eq!(dest, [5, 2, 3, 4]);
    assert_eq!(context.recv_control(id, &mut dest), Ok(0));
    let mut none: [u8; 0] = [];
    assert_eq!(context.recv_control(id, &mut none), Ok(0));
}

#[test]
fn control_buffer_drops_what_does_not_fit() {
    let mut context = TransportContext::new();
    let id = context.register_connection().unwrap();
    let chunk = vec![7u8; 40000];
    assert_eq!(context.push_control_data(id, &chunk), Ok(40000));
    assert_eq!(context.push_control_data(id, &chunk), Ok(25536));
    assert_eq!(context.push_control_data(id, &chunk), Ok(0));
    let mut dest = vec![0u8; 70000];
    assert_eq!(context.recv_control(id, &mut dest), Ok(65536));
    assert_eq!(context.push_control_data(id, &[1]), Ok(1));
}

#[test]
fn connections_are_isolated() {
    let mut context = TransportContext::new();
    let a = context.register_connection().unwrap();
    let b = context.register_connection().unwrap();
    assert_eq!(context.push_control_data(a, b"for a"), Ok(5));
    assert_eq!(context.accept_data_stream(a, 4), Ok(()));
    let mut dest = [0u8; 8];
    assert_eq!(context.recv_control(b, &mut dest), Ok(0));
    assert_eq!(context.list_active_data_streams(b, 8), Ok(vec![]));
    assert_eq!(context.recv_data(b, 4, &mut dest), Err(TransportError::NotFound));
    assert_eq!(context.accept_data_stream(b, 4), Ok(()));
    assert_eq!(context.recv_control(a, &mut dest), Ok(5));
    assert_eq!(&dest[..5], b"for a");
}

#[test]
fn inbound_stream_is_drained_in_pieces_and_stays_until_closed() {
    let mut context = TransportContext::new();
    let id = context.register_connection().unwrap();
    assert_eq!(context.accept_data_stream(id, 2), Ok(()));
    let sent: Vec<u8> = (0..100u8).collect();
    assert_eq!(context.push_stream_data(id, 2, &sent[..30]), Ok(30));
    assert_eq!(context.push_stream_data(id, 2, &sent[30..]), Ok(70));
    assert_eq!(context.end_data_stream(id, 2), Ok(()));

    let mut received: Vec<u8> = Vec::new();
    loop {
        let mut piece = [0u8; 16];
        let read = context.recv_data(id, 2, &mut piece).unwrap();
        if read == 0 {
            break;
        }
        received.extend_from_slice(&piece[..read]);
    }
    assert_eq!(received, sent);
    let mut piece = [0u8; 16];
    assert_eq!(context.recv_data(id, 2, &mut piece), Ok(0));
    assert_eq!(context.recv_data(id, 2, &mut piece), Ok(0));
    assert_eq!(context.data_stream_ended(id, 2), Ok(true));
    assert_eq!(context.list_active_data_streams(id, 10), Ok(vec![2]));
    assert_eq!(context.close_data_stream(id, 2), Ok(()));
    assert_eq!(context.list_active_data_streams(id, 10), Ok(vec![]));
    assert_eq!(context.recv_data(id, 2, &mut piece), Err(TransportError::NotFound));
    assert_eq!(context.close_data_stream(id, 2), Err(TransportError::NotFound));
}

#[test]
fn active_streams_are_listed_in_acceptance_order() {
    let mut context = TransportContext::new();
    let id = context.register_connection().unwrap();
    for stream_id in [6u64, 2, 10, 3] {
        assert_eq!(context.accept_data_stream(id, stream_id), Ok(()));
    }
    assert_eq!(context.list_active_data_streams(id, 10), Ok(vec![6, 2, 10, 3]));
    assert_eq!(context.list_active_data_streams(id, 4), Ok(vec![6, 2, 10, 3]));
    assert_eq!(context.list_active_data_streams(id, 2), Ok(vec![6, 2]));
    assert_eq!(context.list_active_data_streams(id, 0), Ok(vec![]));
    assert_eq!(context.close_data_stream(id, 2), Ok(()));
    assert_eq!(context.list_active_data_streams(id, 10), Ok(vec![6, 10, 3]));
    assert_eq!(context.data_stream_ended(id, 10), Ok(false));
    assert_eq!(context.data_stream_ended(id, 2), Err(TransportError::NotFound));
}

#[test]
fn accepted_stream_identifier_must_be_new_and_below_the_base() {
    let mut context = TransportContext::new();
    let id = context.register_connection().unwrap();
    assert_eq!(context.accept_data_stream(id, 5), Ok(()));
    assert_eq!(context.accept_data_stream(id, 5), Err(TransportError::Conflict));
    assert_eq!(context.accept_data_stream(id, 100000), Ok(()));
    assert_eq!(context.accept_data_stream(id, (1u64 << 62) - 1), Ok(()));
    assert_eq!(context.accept_data_stream(id, 1u64 << 62), Err(TransportError::Conflict));
    assert_eq!(context.accept_data_stream(id, u64::MAX), Err(TransportError::Conflict));
    assert_eq!(
        context.list_active_data_streams(id, 10),
        Ok(vec![5, 100000, (1u64 << 62) - 1])
    );
    assert_eq!(context.push_stream_data(id, 6, b"x"), Err(TransportError::NotFound));
    assert_eq!(context.end_data_stream(id, 6), Err(TransportError::NotFound));
}

#[test]
fn opened_stream_identifiers_start_at_the_base_and_grow() {
    let mut context = TransportContext::new();
    let a = context.register_connection().unwrap();
    let b = context.register_connection().unwrap();
    let (first, _r1) = context.open_data_stream(a).unwrap();
    let (second, _r2) = context.open_data_stream(b).unwrap();
    let (third, _r3) = context.open_data_stream(a).unwrap();
    assert_eq!(first, OUTBOUND_STREAM_ID_BASE);
    assert_eq!(second, OUTBOUND_STREAM_ID_BASE + 1);
    assert_eq!(third, OUTBOUND_STREAM_ID_BASE + 2);
    assert_eq!(context.write_data_stream(a, second, b"x"), Err(TransportError::NotFound));
    assert_eq!(context.write_data_stream(b, second, b"x"), Ok(1));
}

#[test]
fn ten_thousand_accepted_and_opened_streams_never_collide() {
    let mut context = TransportContext::new();
    let id = context.register_connection().unwrap();
    let mut opened: Vec<u64> = Vec::new();
    let mut receivers = Vec::new();
    for index in 0..10_000u64 {
        assert_eq!(context.accept_data_stream(id, index), Ok(()));
        let (stream_id, receiver) = context.open_data_stream(id).unwrap();
        opened.push(stream_id);
        receivers.push(receiver);
    }
    let accepted = context.list_active_data_streams(id, usize::MAX).unwrap();
    assert_eq!(accepted.len(), 10_000);
    assert_eq!(opened.len(), 10_000);
    assert_eq!(accepted, (0..10_000u64).collect::<Vec<u64>>());
    assert_eq!(
        opened,
        (OUTBOUND_STREAM_ID_BASE..OUTBOUND_STREAM_ID_BASE + 10_000).collect::<Vec<u64>>()
    );
    let largest_accepted = accepted.iter().copied().max().unwrap();
    let smallest_opened = opened.iter().copied().min().unwrap();
    assert!(largest_accepted < smallest_opened);
}

#[test]
fn writes_are_queued_in_order_until_the_queue_is_full() {
    let mut context = TransportContext::new();
    let id = context.register_connection().unwrap();
    let (stream_id, mut receiver) = context.open_data_stream(id).unwrap();
    for i in 0..50u8 {
        assert_eq!(context.write_data_stream(id, stream_id, &[i, i]), Ok(2));
    }
    assert_eq!(context.write_data_stream(id, stream_id, &[50]), Err(TransportError::QueueFull));
    assert_eq!(context.finish_data_stream(id, stream_id), Err(TransportError::QueueFull));
    for i in 0..50u8 {
        assert!(matches!(receiver.try_recv(), Ok(StreamCommand::Write(data)) if data == vec![i, i]));
    }
    assert_eq!(context.write_data_stream(id, stream_id, &[]), Ok(0));
    assert_eq!(context.finish_data_stream(id, stream_id), Ok(()));
    assert!(matches!(receiver.try_recv(), Ok(StreamCommand::Write(data)) if data.is_empty()));
    assert!(matches!(receiver.try_recv(), Ok(StreamCommand::Finish)));
    assert_eq!(context.write_data_stream(id, stream_id, &[1]), Err(TransportError::NotFound));
    assert_eq!(context.finish_data_stream(id, stream_id), Err(TransportError::NotFound));
}

#[test]
fn writer_whose_task_ended_reports_closed() {
    let mut context = TransportContext::new();
    let id = context.register_connection().unwrap();
    let (stream_id, receiver) = context.open_data_stream(id).unwrap();
    drop(receiver);
    assert_eq!(context.write_data_stream(id, stream_id, &[1]), Err(TransportError::Closed));
    assert_eq!(context.write_data_stream(id, stream_id, &[1]), Err(TransportError::Closed));
    assert_eq!(context.finish_data_stream(id, stream_id), Err(TransportError::Closed));
    assert_eq!(context.finish_data_stream(id, stream_id), Err(TransportError::NotFound));
}

#[test]
fn finishing_one_writer_leaves_the_others() {
    let mut context = TransportContext::new();
    let id = context.register_connection().unwrap();
    let (a, _ra) = context.open_data_stream(id).unwrap();
    let (b, mut rb) = context.open_data_stream(id).unwrap();
    let (c, _rc) = context.open_data_stream(id).unwrap();
    assert_eq!(context.finish_data_stream(id, a), Ok(()));
    assert_eq!(context.write_data_stream(id, b, &[1]), Ok(1));
    assert_eq!(context.write_data_stream(id, c, &[2]), Ok(1));
    assert_eq!(context.finish_data_stream(id, c), Ok(()));
    assert_eq!(context.write_data_stream(id, b, &[3]), Ok(1));
    assert!(matches!(rb.try_recv(), Ok(StreamCommand::Write(data)) if data == vec![1]));
    assert!(matches!(rb.try_recv(), Ok(StreamCommand::Write(data)) if data == vec![3]));
}

#[test]
fn inbound_datagrams_beyond_the_limit_are_rejected() {
    let mut context = TransportContext::new();
    let id = context.register_connection().unwrap();
    for i in 0..2000u32 {
        let queued = context.push_datagram(id, &i.to_le_bytes()).unwrap();
        assert_eq!(queued, (i as usize) < DEFAULT_DATAGRAM_LIMIT);
    }
    assert_eq!(context.dropped_datagrams(id), Ok(1000));
    for i in 0..1000u32 {
        let mut dest = [0u8; 8];
        assert_eq!(context.recv_datagram(id, &mut dest), Ok(4));
        assert_eq!(&dest[..4], &i.to_le_bytes());
    }
    let mut dest = [0u8; 8];
    assert_eq!(context.recv_datagram(id, &mut dest), Ok(0));
    assert_eq!(context.push_datagram(id, &[1]), Ok(true));
    assert_eq!(context.dropped_datagrams(id), Ok(1000));
}

#[test]
fn outbound_datagrams_are_sent_oldest_first() {
    let mut context = TransportContext::new();
    let id = context.register_connection().unwrap();
    assert_eq!(context.next_outbound_datagram(id), Ok(None));
    assert_eq!(context.send_datagram(id, &[1, 2, 3]), Ok(3));
    assert_eq!(context.send_datagram(id, &[]), Ok(0));
    assert_eq!(context.send_datagram(id, &[4]), Ok(1));
    assert_eq!(context.next_outbound_datagram(id), Ok(Some(vec![1, 2, 3])));
    assert_eq!(context.next_outbound_datagram(id), Ok(Some(vec![])));
    assert_eq!(context.next_outbound_datagram(id), Ok(Some(vec![4])));
    assert_eq!(context.next_outbound_datagram(id), Ok(None));
}

#[test]
fn outbound_datagram_queue_reports_back_pressure() {
    let mut context = TransportContext::new();
    let id = context.register_connection().unwrap();
    for _ in 0..1000 {
        assert_eq!(context.send_datagram(id, &[9]), Ok(1));
    }
    assert_eq!(context.send_datagram(id, &[9]), Err(TransportError::QueueFull));
    assert_eq!(context.next_outbound_datagram(id), Ok(Some(vec![9])));
    assert_eq!(context.send_datagram(id, &[8]), Ok(1));
}

#[test]
fn datagram_is_cut_to_the_destination() {
    let mut context = TransportContext::new();
    let id = context.register_connection().unwrap();
    assert_eq!(context.push_datagram(id, &[1, 2, 3, 4, 5]), Ok(true));
    let mut dest = [0u8; 3];
    assert_eq!(context.recv_datagram(id, &mut dest), Ok(3));
    assert_eq!(dest, [1, 2, 3]);
    assert_eq!(context.recv_datagram(id, &mut dest), Ok(0));
}

#[test]
fn streams_of_both_directions_are_admitted_side_by_side() {
    let mut context = TransportContext::new();
    let id = context.register_connection().unwrap();
    // The first streams that a server opens: bidirectional 1, 5, 9 and
    // unidirectional 3, 7, 11, as QUIC numbers them.
    for stream_id in [1u64, 3, 5, 7, 9, 11] {
        assert_eq!(context.accept_data_stream(id, stream_id), Ok(()));
    }
    assert_eq!(context.list_active_data_streams(id, 10), Ok(vec![1, 3, 5, 7, 9, 11]));
}

#[test]
fn a_long_session_keeps_admitting_streams() {
    let mut context = TransportContext::new();
    let id = context.register_connection().unwrap();
    let (opened, _receiver) = context.open_data_stream(id).unwrap();
    for stream_id in [99_999u64, 100_000, 100_003, 4_000_000_003, (1u64 << 62) - 1] {
        assert_eq!(context.accept_data_stream(id, stream_id), Ok(()));
        assert!(stream_id < opened);
        assert_eq!(context.close_data_stream(id, stream_id), Ok(()));
    }
}

#[test]
fn closing_a_connection_leaves_the_writers_of_the_others() {
    let mut context = TransportContext::new();
    let a = context.register_connection().unwrap();
    let b = context.register_connection().unwrap();
    let (stream_a, mut receiver_a) = context.open_data_stream(a).unwrap();
    let (stream_b, mut receiver_b) = context.open_data_stream(b).unwrap();
    let (second_a, mut second_receiver_a) = context.open_data_stream(a).unwrap();
    assert_eq!(context.close(a), Ok(()));
    assert_eq!(context.write_data_stream(a, stream_a, &[1]), Err(TransportError::NotFound));
    assert_eq!(context.write_data_stream(a, second_a, &[1]), Err(TransportError::NotFound));
    assert_eq!(context.write_data_stream(b, stream_a, &[1]), Err(TransportError::NotFound));
    assert_eq!(context.write_data_stream(b, stream_b, &[7, 8]), Ok(2));
    assert!(matches!(receiver_b.try_recv(), Ok(StreamCommand::Write(data)) if data == vec![7, 8]));
    assert!(matches!(
        receiver_a.try_recv(),
        Err(tokio::sync::mpsc::error::TryRecvError::Disconnected)
    ));
    assert!(matches!(
        second_receiver_a.try_recv(),
        Err(tokio::sync::mpsc::error::TryRecvError::Disconnected)
    ));
    assert_eq!(context.finish_data_stream(b, stream_b), Ok(()));
    assert!(matches!(receiver_b.try_recv(), Ok(StreamCommand::Finish)));
}

#[test]
fn cleanup_closes_every_writer() {
    let mut context = TransportContext::new();
    let a = context.register_connection().unwrap();
    let (stream, mut receiver) = context.open_data_stream(a).unwrap();
    context.cleanup();
    assert!(matches!(
        receiver.try_recv(),
        Err(tokio::sync::mpsc::error::TryRecvError::Disconnected)
    ));
    assert_eq!(context.write_data_stream(a, stream, &[1]), Err(TransportError::NotFound));
}

#[test]
fn opened_stream_gets_the_receiving_end_of_its_own_queue() {
    let mut context = TransportContext::new();
    let id = context.register_connection().unwrap();
    let (first, mut first_receiver) = context.open_data_stream(id).unwrap();
    let (second, mut second_receiver) = context.open_data_stream(id).unwrap();
    assert_eq!(context.write_data_stream(id, second, &[2]), Ok(1));
    assert_eq!(context.write_data_stream(id, first, &[1]), Ok(1));
    assert!(matches!(first_receiver.try_recv(), Ok(StreamCommand::Write(data)) if data == vec![1]));
    assert!(matches!(second_receiver.try_recv(), Ok(StreamCommand::Write(data)) if data == vec![2]));
    assert!(first_receiver.try_recv().is_err());
    assert!(second_receiver.try_recv().is_err());
}
