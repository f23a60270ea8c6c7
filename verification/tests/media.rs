use moq_quic::media::{MediaBuffer, MediaRead, VideoOutput, PLAYER_BUFFER_SIZE, READ_WAKE_MS};

#[test]
fn player_parameters() {
    assert_eq!(PLAYER_BUFFER_SIZE, 16 * 1024 * 1024);
    assert_eq!(READ_WAKE_MS, 100);
}

#[test]
fn reader_waits_until_data_or_end_of_stream() {
    let mut buffer = MediaBuffer::new(16);
    let mut dest = [0u8; 4];
    assert_eq!(buffer.read(&mut dest), MediaRead::Wait);
    assert_eq!(buffer.write(&[1, 2, 3, 4, 5, 6]), 6);
    assert_eq!(buffer.read(&mut dest), MediaRead::Data(4));
    assert_eq!(dest, [1, 2, 3, 4]);
    buffer.set_eof();
    assert_eq!(buffer.read(&mut dest), MediaRead::Data(2));
    assert_eq!(dest, [5, 6, 3, 4]);
    assert_eq!(buffer.read(&mut dest), MediaRead::EndOfStream);
    assert_eq!(buffer.read(&mut dest), MediaRead::EndOfStream);
}

#[test]
fn write_is_cut_at_the_capacity() {
    let mut buffer = MediaBuffer::new(5);
    assert_eq!(buffer.write(&[1, 2, 3]), 3);
    assert_eq!(buffer.write(&[4, 5, 6, 7]), 2);
    assert_eq!(buffer.write(&[8]), 0);
    assert_eq!(buffer.stats(), (5, 5, 0));
    let mut dest = [0u8; 8];
    assert_eq!(buffer.read(&mut dest), MediaRead::Data(5));
    assert_eq!(&dest[..5], &[1, 2, 3, 4, 5]);
    assert_eq!(buffer.stats(), (0, 5, 5));
}

#[test]
fn reset_clears_data_mark_and_totals() {
    let mut buffer = MediaBuffer::new(8);
    assert_eq!(buffer.write(&[1, 2, 3]), 3);
    let mut dest = [0u8; 1];
    assert_eq!(buffer.read(&mut dest), MediaRead::Data(1));
    buffer.set_eof();
    assert_eq!(buffer.stats(), (2, 3, 1));
    buffer.reset();
    assert_eq!(buffer.stats(), (0, 0, 0));
    assert_eq!(buffer.read(&mut dest), MediaRead::Wait);
    assert_eq!(buffer.write(&[9; 8]), 8);
    assert_eq!(buffer.stats(), (8, 8, 0));
}

#[test]
fn read_into_an_empty_destination_reads_nothing() {
    let mut buffer = MediaBuffer::new(8);
    assert_eq!(buffer.write(&[1]), 1);
    let mut none: [u8; 0] = [];
    assert_eq!(buffer.read(&mut none), MediaRead::Data(0));
    assert_eq!(buffer.stats(), (1, 1, 0));
}

#[test]
fn read_counts() {
    assert_eq!(MediaRead::Data(12).count(), Some(12));
    assert_eq!(MediaRead::EndOfStream.count(), Some(0));
    assert_eq!(MediaRead::Wait.count(), None);
}

#[test]
fn video_output_selectors() {
    assert_eq!(VideoOutput::from_code(0), VideoOutput::Window);
    assert_eq!(VideoOutput::from_code(1), VideoOutput::Null);
    assert_eq!(VideoOutput::from_code(2), VideoOutput::Texture);
    assert_eq!(VideoOutput::from_code(3), VideoOutput::Window);
    assert_eq!(VideoOutput::from_code(-1), VideoOutput::Window);
    assert_eq!(VideoOutput::Window.code(), 0);
    assert_eq!(VideoOutput::Null.code(), 1);
    assert_eq!(VideoOutput::Texture.code(), 2);
}

#[test]
fn video_output_drivers() {
    assert_eq!(VideoOutput::Window.driver(), None);
    assert_eq!(VideoOutput::Null.driver(), Some("null"));
    assert_eq!(VideoOutput::Texture.driver(), Some("libmpv"));
}
