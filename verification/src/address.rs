//! The addresses a connect works with, as text: the socket address that is
//! resolved and the URL that a session is requested under. Also the fixed
//! parameters that every connection is set up with.

use vstd::prelude::*;

verus! {

/// Seconds without traffic after which a connection is given up.
pub const IDLE_TIMEOUT_SECS: u64 = 30;

/// Seconds between two keep-alive packets.
pub const KEEP_ALIVE_SECS: u64 = 4;

/// Number of streams of each direction that a peer may have open at once.
pub const MAX_CONCURRENT_STREAMS: u32 = 100;

/// Number of bytes a task that reads a data stream asks the transport for
/// in one read.
pub const READ_CHUNK_SIZE: usize = 65536;

/// Number of bytes the task that reads a control stream asks the transport
/// for in one read.
pub const CONTROL_READ_CHUNK_SIZE: usize = 4096;

/// The character of a decimal digit.
pub open spec fn digit_char(digit: nat) -> char
    recommends
        digit < 10,
{
    (48 + digit) as u8 as char
}

/// The decimal notation of a number, without leading zeros.
pub open spec fn decimal(value: nat) -> Seq<char>
    decreases value,
{
    if value < 10 {
        seq![digit_char(value)]
    } else {
        decimal(value / 10).push(digit_char(value % 10))
    }
}

/// The text `host:port`.
pub open spec fn socket_address_text(host: Seq<char>, port: u16) -> Seq<char> {
    host + seq![':'] + decimal(port as nat)
}

/// The text `https://host:port` followed by the path.
pub open spec fn session_url_text(host: Seq<char>, port: u16, path: Seq<char>) -> Seq<char> {
    seq!['h', 't', 't', 'p', 's', ':', '/', '/'] + host + seq![':'] + decimal(port as nat) + path
}

/// `String::push`: appends one character.
#[verifier::external_body]
fn text_push(text: &mut String, c: char)
    ensures
        final(text)@ == old(text)@.push(c),
{
    text.push(c)
}

/// `String::push_str`: appends a string slice.
#[verifier::external_body]
fn text_push_str(text: &mut String, piece: &str)
    ensures
        final(text)@ == old(text)@ + piece@,
{
    text.push_str(piece)
}

/// Appends the decimal notation of `value`.
fn push_decimal(text: &mut String, value: u16)
    ensures
        final(text)@ == old(text)@ + decimal(value as nat),
    decreases value,
{
    if value >= 10 {
        push_decimal(text, value / 10);
    }
    let digit: u8 = (value % 10) as u8;
    text_push(text, (48 + digit) as char);
    assert(text@ =~= old(text)@ + decimal(value as nat));
}

/// The socket address of a host and a port, as the text that is resolved.
pub fn socket_address(host: &str, port: u16) -> (address: String)
    ensures
        address@ == socket_address_text(host@, port),
{
    let mut address = String::new();
    text_push_str(&mut address, host);
    text_push(&mut address, ':');
    push_decimal(&mut address, port);
    proof {
        assert(address@ =~= socket_address_text(host@, port));
    }
    address
}

/// The URL that a session with a host is requested under.
pub fn session_url(host: &str, port: u16, path: &str) -> (url: String)
    ensures
        url@ == session_url_text(host@, port, path@),
{
    let mut url = String::new();
    text_push_str(&mut url, "https://");
    proof {
        reveal_strlit("https://");
        assert(url@ =~= seq!['h', 't', 't', 'p', 's', ':', '/', '/']);
    }
    text_push_str(&mut url, host);
    text_push(&mut url, ':');
    push_decimal(&mut url, port);
    text_push_str(&mut url, path);
    proof {
        assert(url@ =~= session_url_text(host@, port, path@));
    }
    url
}

} // verus!
