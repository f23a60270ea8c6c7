use moq_quic::address::{
    session_url, socket_address, CONTROL_READ_CHUNK_SIZE, IDLE_TIMEOUT_SECS, KEEP_ALIVE_SECS,
    MAX_CONCURRENT_STREAMS, READ_CHUNK_SIZE,
};

#[test]
fn connection_parameters() {
    assert_eq!(IDLE_TIMEOUT_SECS, 30);
    assert_eq!(KEEP_ALIVE_SECS, 4);
    assert_eq!(MAX_CONCURRENT_STREAMS, 100);
    assert_eq!(READ_CHUNK_SIZE, 64 * 1024);
    assert_eq!(CONTROL_READ_CHUNK_SIZE, 4096);
}

#[test]
fn socket_address_is_host_colon_port() {
    assert_eq!(socket_address("example.com", 443), "example.com:443");
    assert_eq!(socket_address("localhost", 0), "localhost:0");
    assert_eq!(socket_address("10.0.0.1", 65535), "10.0.0.1:65535");
    assert_eq!(socket_address("", 7), ":7");
    assert_eq!(socket_address("h", 10), "h:10");
    assert_eq!(socket_address("h", 4433), "h:4433");
    assert_eq!(socket_address("h", 10000), "h:10000");
}

#[test]
fn session_url_is_https_host_port_path() {
    assert_eq!(session_url("relay.example", 4443, "/moq"), "https://relay.example:4443/moq");
    assert_eq!(session_url("localhost", 443, ""), "https://localhost:443");
    assert_eq!(session_url("h", 9, "/a/b?c=d"), "https://h:9/a/b?c=d");
}

#[test]
fn every_port_is_written_in_decimal() {
    for port in [0u16, 1, 9, 10, 99, 100, 999, 1000, 9999, 10000, 54321, 65535] {
        assert_eq!(socket_address("x", port), format!("x:{}", port));
    }
}
