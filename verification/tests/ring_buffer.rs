use moq_quic::ring_buffer::ReceiveBuffer;

#[test]
fn push_then_pop_is_fifo() {
    let mut buffer = ReceiveBuffer::new(16);
    assert_eq!(buffer.push(&[1, 2, 3]), 3);
    assert_eq!(buffer.push(&[4, 5]), 2);
    assert_eq!(buffer.len(), 5);
    let mut dest = [0u8; 4];
    assert_eq!(buffer.pop(&mut dest), 4);
    assert_eq!(dest, [1, 2, 3, 4]);
    let mut rest = [9u8; 4];
    assert_eq!(buffer.pop(&mut rest), 1);
    assert_eq!(rest, [5, 9, 9, 9]);
    assert!(buffer.is_empty());
}

#[test]
fn new_buffer_is_empty() {
    let mut buffer = ReceiveBuffer::new(4);
    assert_eq!(buffer.len(), 0);
    assert!(buffer.is_empty());
    let mut dest = [7u8; 3];
    assert_eq!(buffer.pop(&mut dest), 0);
    assert_eq!(dest, [7, 7, 7]);
}

#[test]
fn push_beyond_capacity_keeps_leading_bytes() {
    let mut buffer = ReceiveBuffer::new(8);
    assert_eq!(buffer.push(&[1, 2, 3, 4, 5, 6]), 6);
    assert_eq!(buffer.push(&[7, 8, 9, 10, 11, 12]), 2);
    assert_eq!(buffer.push(&[13]), 0);
    assert_eq!(buffer.len(), 8);
    let mut dest = [0u8; 16];
    assert_eq!(buffer.pop(&mut dest), 8);
    assert_eq!(&dest[..8], &[1, 2, 3, 4, 5, 6, 7, 8]);
    assert_eq!(&dest[8..], &[0u8; 8]);
}

#[test]
fn accepted_counts_add_up_to_capacity() {
    let capacity = 1000usize;
    let mut buffer = ReceiveBuffer::new(capacity);
    let mut accepted = 0usize;
    let mut offered: Vec<u8> = Vec::new();
    for round in 0..50u32 {
        let chunk: Vec<u8> = (0..37u32).map(|i| ((round * 37 + i) % 251) as u8).collect();
        accepted += buffer.push(&chunk);
        offered.extend_from_slice(&chunk);
    }
    assert!(offered.len() > capacity);
    assert_eq!(accepted, capacity);
    assert_eq!(buffer.len(), capacity);
    let mut dest = vec![0u8; capacity + 10];
    assert_eq!(buffer.pop(&mut dest), capacity);
    assert_eq!(&dest[..capacity], &offered[..capacity]);
}

#[test]
fn pop_frees_room_for_later_pushes() {
    let mut buffer = ReceiveBuffer::new(4);
    assert_eq!(buffer.push(&[1, 2, 3, 4]), 4);
    let mut two = [0u8; 2];
    assert_eq!(buffer.pop(&mut two), 2);
    assert_eq!(two, [1, 2]);
    assert_eq!(buffer.push(&[5, 6, 7]), 2);
    let mut all = [0u8; 8];
    assert_eq!(buffer.pop(&mut all), 4);
    assert_eq!(&all[..4], &[3, 4, 5, 6]);
}

#[test]
fn zero_capacity_buffer_accepts_nothing() {
    let mut buffer = ReceiveBuffer::new(0);
    assert_eq!(buffer.push(&[1, 2, 3]), 0);
    assert!(buffer.is_empty());
}

#[test]
fn empty_push_and_empty_destination() {
    let mut buffer = ReceiveBuffer::new(4);
    assert_eq!(buffer.push(&[]), 0);
    assert_eq!(buffer.push(&[1]), 1);
    let mut none: [u8; 0] = [];
    assert_eq!(buffer.pop(&mut none), 0);
    assert_eq!(buffer.len(), 1);
}

#[test]
fn partial_reads_return_everything_in_order() {
    let mut buffer = ReceiveBuffer::new(64);
    let data: Vec<u8> = (0..40u8).collect();
    assert_eq!(buffer.push(&data), 40);
    let mut out: Vec<u8> = Vec::new();
    loop {
        let mut piece = [0u8; 7];
        let read = buffer.pop(&mut piece);
        if read == 0 {
            break;
        }
        out.extend_from_slice(&piece[..read]);
    }
    assert_eq!(out, data);
    let mut piece = [0u8; 7];
    assert_eq!(buffer.pop(&mut piece), 0);
}
