//! The text of the most recent failure, kept for the caller to fetch.

use vstd::prelude::*;
use vstd::slice::slice_to_vec;
use vstd::string::StringSliceAdditionalSpecFns;
use vstd::slice::slice_subrange;

verus! {

/// Largest number of bytes of a message that are kept.
pub const MAX_ERROR_LEN: usize = 512;

/// The bytes of `message` that are kept: its first `MAX_ERROR_LEN` bytes.
pub open spec fn kept_message(message: Seq<u8>) -> Seq<u8> {
    if message.len() <= MAX_ERROR_LEN {
        message
    } else {
        message.take(MAX_ERROR_LEN as int)
    }
}

/// The most recent failure message, as bytes of UTF-8 cut at
/// `MAX_ERROR_LEN`; empty when no failure was recorded.
pub struct LastError {
    bytes: Vec<u8>,
}

impl View for LastError {
    type V = Seq<u8>;

    /// The recorded bytes.
    closed spec fn view(&self) -> Seq<u8> {
        self.bytes@
    }
}

impl LastError {
    /// A record without a message.
    pub fn new() -> (record: LastError)
        ensures
            record@ == Seq::<u8>::empty(),
    {
        LastError { bytes: Vec::new() }
    }

    /// Copies the recorded message into the start of `dest`, as much of it
    /// as fits, and returns the number of bytes copied; 0 when nothing is
    /// recorded or `dest` is empty.
    pub fn copy_to(&self, dest: &mut [u8]) -> (copied: usize)
        ensures
            copied == (if self@.len() <= old(dest)@.len() {
                self@.len()
            } else {
                old(dest)@.len()
            }),
            final(dest)@ == self@.take(copied as int) + old(dest)@.skip(copied as int),
    {
        let count: usize = if self.bytes.len() <= dest.len() {
            self.bytes.len()
        } else {
            dest.len()
        };
        let mut i: usize = 0;
        while i < count
            invariant
                i <= count,
                count <= self.bytes@.len(),
                count <= old(dest)@.len(),
                dest@.len() == old(dest)@.len(),
                dest@ == self.bytes@.take(i as int) + old(dest)@.skip(i as int),
            decreases count - i,
        {
            dest[i] = self.bytes[i];
            i = i + 1;
        }
        count
    }

    /// Number of recorded bytes.
    pub fn len(&self) -> (n: usize)
        ensures
            n == self@.len(),
    {
        self.bytes.len()
    }
}

/// Records `msg` as the most recent failure, replacing what was recorded: the
/// first `MAX_ERROR_LEN` bytes of its UTF-8 encoding are kept.
pub fn set_last_error(record: &mut LastError, msg: &str)
    ensures
        final(record)@ == kept_message(msg.spec_bytes()),
        final(record)@.len() <= MAX_ERROR_LEN,
{
    let bytes: &[u8] = msg.as_bytes();
    let len: usize = if bytes.len() <= MAX_ERROR_LEN {
        bytes.len()
    } else {
        MAX_ERROR_LEN
    };
    let kept: &[u8] = slice_subrange(bytes, 0, len);
    record.bytes = slice_to_vec(kept);
    proof {
        assert(bytes@.subrange(0, len as int) =~= kept_message(bytes@));
    }
}

} // verus!
