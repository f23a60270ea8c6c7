use moq_quic::status::TransportError;
use moq_quic::stream_writer::{
    report_finish, report_write, StreamCommand, StreamWriter, SubmitError, WriterAction,
    WriterPhase, WriterTask, MAX_CHANNEL_CAPACITY,
};
use tokio::sync::mpsc::error::TryRecvError;

#[test]
fn writer_knows_its_stream() {
    let (writer, _receiver) = StreamWriter::new(7, 100003, 4);
    assert_eq!(writer.session_id(), 7);
    assert_eq!(writer.stream_id(), 100003);
}

#[test]
fn writer_keeps_the_bound_of_its_queue() {
    let (small, _small_receiver) = StreamWriter::new(1, 2, 1);
    let (large, _large_receiver) = StreamWriter::new(1, 3, 4096);
    assert_eq!(small.capacity(), 1);
    assert_eq!(large.capacity(), 4096);
    assert!(small.try_write(vec![1]).is_ok());
    assert!(matches!(small.try_write(vec![2]), Err(SubmitError::QueueFull(_))));
}

#[test]
fn channel_bound_is_an_eighth_of_the_address_space() {
    assert_eq!(MAX_CHANNEL_CAPACITY, usize::MAX >> 3);
}

#[test]
fn commands_arrive_in_submission_order() {
    let (writer, mut receiver) = StreamWriter::new(1, 100000, 8);
    assert!(writer.try_write(vec![1, 2, 3]).is_ok());
    assert!(writer.try_write(vec![4, 5]).is_ok());
    assert!(writer.try_finish().is_ok());
    assert!(matches!(receiver.try_recv(), Ok(StreamCommand::Write(data)) if data == vec![1, 2, 3]));
    assert!(matches!(receiver.try_recv(), Ok(StreamCommand::Write(data)) if data == vec![4, 5]));
    assert!(matches!(receiver.try_recv(), Ok(StreamCommand::Finish)));
    assert!(matches!(receiver.try_recv(), Err(TryRecvError::Empty)));
}

#[test]
fn full_queue_hands_the_command_back() {
    let (writer, mut receiver) = StreamWriter::new(1, 100000, 2);
    assert!(writer.try_write(vec![1]).is_ok());
    assert!(writer.try_write(vec![2]).is_ok());
    match writer.try_write(vec![3, 3]) {
        Err(SubmitError::QueueFull(StreamCommand::Write(data))) => assert_eq!(data, vec![3, 3]),
        other => panic!("expected a full queue, got {:?}", other),
    }
    assert!(matches!(writer.try_finish(), Err(SubmitError::QueueFull(StreamCommand::Finish))));
    assert!(matches!(receiver.try_recv(), Ok(StreamCommand::Write(data)) if data == vec![1]));
    assert!(writer.try_finish().is_ok());
}

#[test]
fn closed_queue_hands_the_command_back() {
    let (writer, receiver) = StreamWriter::new(1, 100000, 2);
    drop(receiver);
    match writer.try_write(vec![9, 8, 7]) {
        Err(SubmitError::Closed(StreamCommand::Write(data))) => assert_eq!(data, vec![9, 8, 7]),
        other => panic!("expected a closed queue, got {:?}", other),
    }
    assert!(matches!(writer.try_finish(), Err(SubmitError::Closed(StreamCommand::Finish))));
}

#[test]
fn second_handle_feeds_the_same_queue() {
    let (writer, mut receiver) = StreamWriter::new(1, 100000, 4);
    let sender = writer.sender();
    assert!(sender.same_channel(&writer.sender()));
    let (other, _other_receiver) = StreamWriter::new(1, 100001, 4);
    assert!(!sender.same_channel(&other.sender()));
    assert!(sender.try_send(StreamCommand::Finish).is_ok());
    assert!(writer.try_write(vec![1]).is_ok());
    assert!(matches!(receiver.try_recv(), Ok(StreamCommand::Finish)));
    assert!(matches!(receiver.try_recv(), Ok(StreamCommand::Write(_))));
}

#[test]
fn dropping_every_handle_disconnects_the_task() {
    let (writer, mut receiver) = StreamWriter::new(1, 100000, 4);
    assert!(writer.try_write(vec![5]).is_ok());
    drop(writer);
    assert!(matches!(receiver.try_recv(), Ok(StreamCommand::Write(data)) if data == vec![5]));
    assert!(matches!(receiver.try_recv(), Err(TryRecvError::Disconnected)));
}

#[test]
fn task_writes_in_order_and_finishes_once() {
    let (writer, mut receiver) = StreamWriter::new(3, 100001, 8);
    assert!(writer.try_write(b"first".to_vec()).is_ok());
    assert!(writer.try_write(b"second".to_vec()).is_ok());
    assert!(writer.try_finish().is_ok());
    assert!(writer.try_write(b"late".to_vec()).is_ok());

    let mut task = WriterTask::new();
    let mut written: Vec<Vec<u8>> = Vec::new();
    let mut finishes = 0u32;
    while task.is_running() {
        let received = receiver.try_recv().ok();
        match task.on_command(received) {
            WriterAction::Write(data) => {
                written.push(data);
                task.on_write_result(true);
            }
            WriterAction::Finish => finishes += 1,
            WriterAction::Stop => {}
        }
    }
    assert_eq!(written, vec![b"first".to_vec(), b"second".to_vec()]);
    assert_eq!(finishes, 1);
    assert_eq!(task.phase(), WriterPhase::Finished);
    drop(receiver);
    assert!(matches!(writer.try_write(vec![1]), Err(SubmitError::Closed(_))));
    assert!(matches!(writer.try_finish(), Err(SubmitError::Closed(_))));
}

#[test]
fn task_stops_after_a_failed_write() {
    let mut task = WriterTask::new();
    assert_eq!(task.phase(), WriterPhase::Open);
    assert!(matches!(
        task.on_command(Some(StreamCommand::Write(vec![1]))),
        WriterAction::Write(data) if data == vec![1]
    ));
    task.on_write_result(false);
    assert_eq!(task.phase(), WriterPhase::Failed);
    assert!(!task.is_running());
    assert!(matches!(task.on_command(Some(StreamCommand::Finish)), WriterAction::Stop));
    assert_eq!(task.phase(), WriterPhase::Failed);
}

#[test]
fn task_stops_when_the_queue_is_closed() {
    let mut task = WriterTask::new();
    assert!(matches!(task.on_command(None), WriterAction::Stop));
    assert_eq!(task.phase(), WriterPhase::Disconnected);
    assert!(matches!(task.on_command(Some(StreamCommand::Write(vec![1]))), WriterAction::Stop));
    task.on_write_result(false);
    assert_eq!(task.phase(), WriterPhase::Disconnected);
}

#[test]
fn finished_task_ignores_later_commands() {
    let mut task = WriterTask::new();
    assert!(matches!(task.on_command(Some(StreamCommand::Finish)), WriterAction::Finish));
    assert_eq!(task.phase(), WriterPhase::Finished);
    assert!(matches!(task.on_command(Some(StreamCommand::Finish)), WriterAction::Stop));
    assert!(matches!(task.on_command(None), WriterAction::Stop));
    assert_eq!(task.phase(), WriterPhase::Finished);
}

#[test]
fn write_reports() {
    assert_eq!(report_write(Ok(()), 12), Ok(12));
    assert_eq!(
        report_write(Err(SubmitError::QueueFull(StreamCommand::Write(vec![1]))), 12),
        Err(TransportError::QueueFull)
    );
    assert_eq!(
        report_write(Err(SubmitError::Closed(StreamCommand::Write(vec![1]))), 12),
        Err(TransportError::Closed)
    );
}

#[test]
fn finish_reports() {
    assert_eq!(report_finish(Ok(())), (Ok(()), true));
    assert_eq!(
        report_finish(Err(SubmitError::QueueFull(StreamCommand::Finish))),
        (Err(TransportError::QueueFull), false)
    );
    assert_eq!(
        report_finish(Err(SubmitError::Closed(StreamCommand::Finish))),
        (Err(TransportError::Closed), true)
    );
}
