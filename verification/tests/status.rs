use moq_quic::status::{
    classify_handshake_failure, status_of_connect, status_of_id, status_of_size, status_of_unit,
    ConnectError,
    HandshakeFailure, TransportError, CRYPTO_ERROR_BASE, NO_APPLICATION_PROTOCOL_ALERT,
};

#[test]
fn connect_failures_have_their_codes() {
    assert_eq!(ConnectError::MissingHost.code(), -1);
    assert_eq!(ConnectError::InvalidEncoding.code(), -2);
    assert_eq!(ConnectError::Negotiation.code(), -3);
    assert_eq!(ConnectError::Resolution.code(), -4);
    assert_eq!(ConnectError::Bind.code(), -5);
    assert_eq!(ConnectError::Configuration.code(), -6);
    assert_eq!(ConnectError::Handshake.code(), -7);
    assert_eq!(ConnectError::InvalidUrl.code(), -8);
    assert_eq!(ConnectError::Exhausted.code(), -9);
}

#[test]
fn transport_failures_have_their_codes() {
    assert_eq!(TransportError::NotFound.code(), -1);
    assert_eq!(TransportError::Unavailable.code(), -2);
    assert_eq!(TransportError::QueueFull.code(), -3);
    assert_eq!(TransportError::Closed.code(), -4);
    assert_eq!(TransportError::Conflict.code(), -5);
    assert_eq!(TransportError::Exhausted.code(), -6);
    assert_eq!(TransportError::TransportFailure.code(), -2);
    assert_eq!(TransportError::ControlWriteFailed.code(), -7);
}

#[test]
fn codes_are_distinct() {
    let connect = [
        ConnectError::MissingHost,
        ConnectError::InvalidEncoding,
        ConnectError::Negotiation,
        ConnectError::Resolution,
        ConnectError::Bind,
        ConnectError::Configuration,
        ConnectError::Handshake,
        ConnectError::InvalidUrl,
        ConnectError::Exhausted,
    ];
    for (i, a) in connect.iter().enumerate() {
        for (j, b) in connect.iter().enumerate() {
            assert_eq!(i == j, a.code() == b.code());
        }
    }
    let transport = [
        TransportError::NotFound,
        TransportError::Unavailable,
        TransportError::QueueFull,
        TransportError::Closed,
        TransportError::Conflict,
        TransportError::Exhausted,
        TransportError::ControlWriteFailed,
    ];
    for (i, a) in transport.iter().enumerate() {
        for (j, b) in transport.iter().enumerate() {
            assert_eq!(i == j, a.code() == b.code());
        }
    }
    // A transport failure on a data stream has the status that an
    // unavailable control stream has; no operation reports both.
    for other in transport.iter() {
        assert_eq!(
            other.code() == TransportError::TransportFailure.code(),
            *other == TransportError::Unavailable
        );
    }
}

#[test]
fn size_status_is_the_size_or_the_code() {
    assert_eq!(status_of_size(Ok(0)), 0);
    assert_eq!(status_of_size(Ok(4096)), 4096);
    assert_eq!(status_of_size(Ok(usize::MAX)), i64::MAX);
    assert_eq!(status_of_size(Err(TransportError::NotFound)), -1);
    assert_eq!(status_of_size(Err(TransportError::Unavailable)), -2);
    assert_eq!(status_of_size(Err(TransportError::TransportFailure)), -2);
    assert_eq!(status_of_size(Err(TransportError::ControlWriteFailed)), -7);
    assert_eq!(status_of_size(Err(TransportError::QueueFull)), -3);
}

#[test]
fn unit_status_is_zero_or_the_code() {
    assert_eq!(status_of_unit(Ok(())), 0);
    assert_eq!(status_of_unit(Err(TransportError::NotFound)), -1);
    assert_eq!(status_of_unit(Err(TransportError::Closed)), -4);
}

#[test]
fn connect_status_is_zero_or_the_code() {
    assert_eq!(status_of_connect(Ok(17)), 0);
    assert_eq!(status_of_connect(Err(ConnectError::Handshake)), -7);
    assert_eq!(status_of_connect(Err(ConnectError::Resolution)), -4);
}

#[test]
fn failed_negotiation_is_told_from_a_failed_handshake() {
    assert_eq!(CRYPTO_ERROR_BASE, 0x100);
    assert_eq!(NO_APPLICATION_PROTOCOL_ALERT, 120);
    assert_eq!(
        classify_handshake_failure(HandshakeFailure::Closed(0x178)),
        ConnectError::Negotiation
    );
    assert_eq!(
        classify_handshake_failure(HandshakeFailure::SessionRefused),
        ConnectError::Negotiation
    );
    assert_eq!(classify_handshake_failure(HandshakeFailure::Closed(0x12a)), ConnectError::Handshake);
    assert_eq!(classify_handshake_failure(HandshakeFailure::Closed(120)), ConnectError::Handshake);
    assert_eq!(classify_handshake_failure(HandshakeFailure::Closed(0)), ConnectError::Handshake);
    assert_eq!(classify_handshake_failure(HandshakeFailure::Other), ConnectError::Handshake);
}

#[test]
fn the_four_connect_failures_have_different_statuses() {
    let statuses = [
        status_of_connect(Err(ConnectError::Resolution)),
        status_of_connect(Err(ConnectError::Bind)),
        status_of_connect(Err(ConnectError::Handshake)),
        status_of_connect(Err(ConnectError::Negotiation)),
    ];
    assert_eq!(statuses, [-4, -5, -7, -3]);
}

#[test]
fn identifier_status_is_the_identifier_or_the_code() {
    assert_eq!(status_of_id(Ok(0)), 0);
    assert_eq!(status_of_id(Ok(1u64 << 62)), 1i64 << 62);
    assert_eq!(status_of_id(Ok((1u64 << 62) + 17)), (1i64 << 62) + 17);
    assert_eq!(status_of_id(Ok(i64::MAX as u64)), i64::MAX);
    assert_eq!(status_of_id(Ok(u64::MAX)), i64::MAX);
    assert_eq!(status_of_id(Err(TransportError::NotFound)), -1);
    assert_eq!(status_of_id(Err(TransportError::Exhausted)), -6);
}

#[test]
fn failed_open_of_a_stream_keeps_its_status() {
    assert_eq!(status_of_unit(Err(TransportError::TransportFailure)), -2);
    assert_eq!(status_of_unit(Err(TransportError::NotFound)), -1);
}
