use moq_quic::last_error::{set_last_error, LastError, MAX_ERROR_LEN};

#[test]
fn no_error_copies_nothing() {
    let record = LastError::new();
    let mut dest = [7u8; 8];
    assert_eq!(record.copy_to(&mut dest), 0);
    assert_eq!(dest, [7u8; 8]);
    assert_eq!(record.len(), 0);
}

#[test]
fn message_is_recorded_and_replaced() {
    let mut record = LastError::new();
    set_last_error(&mut record, "UDP bind error: denied");
    let mut dest = [0u8; 64];
    let copied = record.copy_to(&mut dest);
    assert_eq!(&dest[..copied], b"UDP bind error: denied");
    set_last_error(&mut record, "short");
    let copied = record.copy_to(&mut dest);
    assert_eq!(copied, 5);
    assert_eq!(&dest[..5], b"short");
    assert_eq!(&dest[5..8], b"ind");
    set_last_error(&mut record, "");
    assert_eq!(record.copy_to(&mut dest), 0);
}

#[test]
fn message_is_cut_at_the_limit() {
    assert_eq!(MAX_ERROR_LEN, 512);
    let mut record = LastError::new();
    let long: String = (0..600).map(|i| (b'a' + (i % 26) as u8) as char).collect();
    set_last_error(&mut record, &long);
    assert_eq!(record.len(), 512);
    let mut dest = [0u8; 1024];
    assert_eq!(record.copy_to(&mut dest), 512);
    assert_eq!(&dest[..512], &long.as_bytes()[..512]);
    let exact: String = "x".repeat(512);
    set_last_error(&mut record, &exact);
    assert_eq!(record.len(), 512);
}

#[test]
fn copy_is_cut_at_the_destination() {
    let mut record = LastError::new();
    set_last_error(&mut record, "handshake failed");
    let mut dest = [0u8; 9];
    assert_eq!(record.copy_to(&mut dest), 9);
    assert_eq!(&dest, b"handshake");
    let mut none: [u8; 0] = [];
    assert_eq!(record.copy_to(&mut none), 0);
}

#[test]
fn bytes_of_wide_characters_are_counted() {
    let mut record = LastError::new();
    set_last_error(&mut record, "é");
    assert_eq!(record.len(), 2);
    let mut dest = [0u8; 4];
    assert_eq!(record.copy_to(&mut dest), 2);
    assert_eq!(&dest[..2], "é".as_bytes());
}
