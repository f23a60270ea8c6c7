//! Byte queue that feeds a media consumer. The producer writes without ever
//! blocking; the consumer reads until the producer has marked the end of the
//! stream and the queue has run empty.

use crate::ring_buffer::{accepted_len, after_pop, after_push, popped, taken_len};
use std::collections::VecDeque;
use vstd::prelude::*;

verus! {

/// Capacity in bytes of the queue that feeds a player: 16 MiB.
pub const PLAYER_BUFFER_SIZE: usize = 16777216;

/// Milliseconds after which a reader that waits for data looks again.
pub const READ_WAKE_MS: u64 = 100;

/// A running total after `amount` more bytes: totals wrap around at 2^64.
pub open spec fn wrapped_total(total: u64, amount: nat) -> u64
    recommends
        amount <= u64::MAX,
{
    if total + amount <= u64::MAX {
        (total + amount) as u64
    } else {
        (total + amount - u64::MAX - 1) as u64
    }
}

/// What a read finds.
#[derive(Clone, Copy, PartialEq, Eq, Debug, Structural)]
pub enum MediaRead {
    /// This many bytes were moved into the destination.
    Data(usize),
    /// The stream has ended and everything was read.
    EndOfStream,
    /// Nothing is queued and the stream has not ended: wait, then read
    /// again.
    Wait,
}

impl MediaRead {
    /// The byte count that a reader which may block reports: the number of
    /// bytes read, 0 at the end of the stream, nothing while it has to wait.
    pub open spec fn spec_count(self) -> Option<usize> {
        match self {
            MediaRead::Data(read) => Some(read),
            MediaRead::EndOfStream => Some(0),
            MediaRead::Wait => None,
        }
    }

    /// The byte count that a reader which may block reports.
    pub fn count(self) -> (count: Option<usize>)
        ensures
            count == self.spec_count(),
    {
        match self {
            MediaRead::Data(read) => Some(read),
            MediaRead::EndOfStream => Some(0),
            MediaRead::Wait => None,
        }
    }
}

/// What a read into a destination of `room` bytes finds in a queue holding
/// `held` bytes.
pub open spec fn media_read(held: nat, eof: bool, room: nat) -> MediaRead {
    if held == 0 {
        if eof {
            MediaRead::EndOfStream
        } else {
            MediaRead::Wait
        }
    } else {
        MediaRead::Data(taken_len(held, room) as usize)
    }
}

/// Bounded FIFO byte queue with an end-of-stream mark and running totals.
pub struct MediaBuffer {
    data: VecDeque<u8>,
    eof: bool,
    total_written: u64,
    total_read: u64,
    max_size: usize,
}

impl View for MediaBuffer {
    type V = Seq<u8>;

    /// The queued bytes, oldest first.
    closed spec fn view(&self) -> Seq<u8> {
        self.data@
    }
}

impl MediaBuffer {
    /// The fixed capacity in bytes.
    pub closed spec fn capacity(&self) -> nat {
        self.max_size as nat
    }

    /// Whether the end of the stream has been marked.
    pub closed spec fn eof(&self) -> bool {
        self.eof
    }

    /// Bytes accepted since the last reset, modulo 2^64.
    pub closed spec fn total_written(&self) -> u64 {
        self.total_written
    }

    /// Bytes handed out since the last reset, modulo 2^64.
    pub closed spec fn total_read(&self) -> u64 {
        self.total_read
    }

    /// The occupancy never exceeds the capacity.
    pub open spec fn wf(&self) -> bool {
        self@.len() <= self.capacity()
    }

    /// An empty queue of the given capacity on a stream that has not ended.
    pub fn new(max_size: usize) -> (buffer: MediaBuffer)
        ensures
            buffer.wf(),
            buffer@ == Seq::<u8>::empty(),
            buffer.capacity() == max_size,
            !buffer.eof(),
            buffer.total_written() == 0,
            buffer.total_read() == 0,
    {
        MediaBuffer { data: VecDeque::new(), eof: false, total_written: 0, total_read: 0, max_size }
    }

    /// Appends as many leading bytes of `data` as fit and returns how many
    /// were accepted.
    pub fn write(&mut self, data: &[u8]) -> (written: usize)
        requires
            old(self).wf(),
        ensures
            final(self).wf(),
            written == accepted_len(old(self)@.len(), old(self).capacity(), data@.len()),
            final(self)@ == after_push(old(self)@, old(self).capacity(), data@),
            final(self).capacity() == old(self).capacity(),
            final(self).eof() == old(self).eof(),
            final(self).total_written() == wrapped_total(old(self).total_written(), written as nat),
            final(self).total_read() == old(self).total_read(),
    {
        let available: usize = self.max_size - self.data.len();
        let to_write: usize = if data.len() <= available {
            data.len()
        } else {
            available
        };
        let mut i: usize = 0;
        while i < to_write
            invariant
                i <= to_write,
                to_write <= data@.len(),
                old(self).data@.len() + to_write <= self.max_size,
                self.max_size == old(self).max_size,
                self.eof == old(self).eof,
                self.total_written == old(self).total_written,
                self.total_read == old(self).total_read,
                self.data@ == old(self).data@ + data@.take(i as int),
            decreases to_write - i,
        {
            self.data.push_back(data[i]);
            proof {
                assert(data@.take(i as int).push(data@[i as int]) =~= data@.take(i + 1));
            }
            i = i + 1;
        }
        self.total_written = self.total_written.wrapping_add(to_write as u64);
        to_write
    }

    /// Moves up to `buf.len()` bytes from the front of the queue into the
    /// start of `buf`. Never blocks: an empty queue reports the end of the
    /// stream if it has been marked, and asks the reader to wait otherwise.
    pub fn read(&mut self, buf: &mut [u8]) -> (found: MediaRead)
        requires
            old(self).wf(),
        ensures
            final(self).wf(),
            found == media_read(old(self)@.len(), old(self).eof(), old(buf)@.len()),
            final(self).capacity() == old(self).capacity(),
            final(self).eof() == old(self).eof(),
            final(self).total_written() == old(self).total_written(),
            final(buf)@.len() == old(buf)@.len(),
            !(found is Data) ==> final(self)@ == old(self)@ && final(buf)@ == old(buf)@
                && final(self).total_read() == old(self).total_read(),
            found matches MediaRead::Data(read) ==> final(buf)@ == popped(
                old(self)@,
                old(buf)@.len(),
            ) + old(buf)@.skip(read as int) && final(self)@ == after_pop(
                old(self)@,
                old(buf)@.len(),
            ) && final(self).total_read() == wrapped_total(old(self).total_read(), read as nat),
    {
        if self.data.len() == 0 {
            if self.eof {
                return MediaRead::EndOfStream;
            }
            return MediaRead::Wait;
        }
        let to_read: usize = if buf.len() <= self.data.len() {
            buf.len()
        } else {
            self.data.len()
        };
        let mut i: usize = 0;
        while i < to_read
            invariant
                i <= to_read,
                to_read <= old(self).data@.len(),
                to_read <= old(buf)@.len(),
                buf@.len() == old(buf)@.len(),
                self.max_size == old(self).max_size,
                self.eof == old(self).eof,
                self.total_written == old(self).total_written,
                self.total_read == old(self).total_read,
                self.data@ == old(self).data@.skip(i as int),
                buf@ == old(self).data@.take(i as int) + old(buf)@.skip(i as int),
            decreases to_read - i,
        {
            let front: Option<u8> = self.data.pop_front();
            match front {
                Some(byte) => {
                    buf[i] = byte;
                },
                None => {},
            }
            i = i + 1;
        }
        self.total_read = self.total_read.wrapping_add(to_read as u64);
        MediaRead::Data(to_read)
    }

    /// Marks the end of the stream: once the queue has run empty, reads
    /// report the end instead of asking to wait.
    pub fn set_eof(&mut self)
        ensures
            final(self).eof(),
            final(self)@ == old(self)@,
            final(self).capacity() == old(self).capacity(),
            final(self).total_written() == old(self).total_written(),
            final(self).total_read() == old(self).total_read(),
    {
        self.eof = true;
    }

    /// Empties the queue, clears the end-of-stream mark and the totals.
    pub fn reset(&mut self)
        ensures
            final(self).wf(),
            final(self)@ == Seq::<u8>::empty(),
            !final(self).eof(),
            final(self).capacity() == old(self).capacity(),
            final(self).total_written() == 0,
            final(self).total_read() == 0,
    {
        self.data.clear();
        self.eof = false;
        self.total_written = 0;
        self.total_read = 0;
    }

    /// The number of queued bytes and the two running totals: bytes written
    /// and bytes read.
    pub fn stats(&self) -> (stats: (usize, u64, u64))
        ensures
            stats.0 == self@.len(),
            stats.1 == self.total_written(),
            stats.2 == self.total_read(),
    {
        (self.data.len(), self.total_written, self.total_read)
    }
}

/// Where the consumer wants its pictures.
#[derive(Clone, Copy, PartialEq, Eq, Debug, Structural)]
pub enum VideoOutput {
    /// A window of the consumer's own.
    Window,
    /// No pictures: sound only.
    Null,
    /// A texture that the host draws.
    Texture,
}

impl VideoOutput {
    /// The output that a numeric selector stands for: 1 is no pictures, 2 a
    /// texture, everything else a window.
    pub open spec fn of_code(code: i32) -> VideoOutput {
        if code == 1 {
            VideoOutput::Null
        } else if code == 2 {
            VideoOutput::Texture
        } else {
            VideoOutput::Window
        }
    }

    /// The output that a numeric selector stands for.
    pub fn from_code(code: i32) -> (output: VideoOutput)
        ensures
            output == VideoOutput::of_code(code),
    {
        if code == 1 {
            VideoOutput::Null
        } else if code == 2 {
            VideoOutput::Texture
        } else {
            VideoOutput::Window
        }
    }

    /// The name of the video driver that the consumer is configured with
    /// for this output; none for a window, which is the consumer's default.
    pub fn driver(self) -> (name: Option<&'static str>)
        ensures
            self == VideoOutput::Window <==> name is None,
            self == VideoOutput::Null ==> (name matches Some(text) && text@ == "null"@),
            self == VideoOutput::Texture ==> (name matches Some(text) && text@ == "libmpv"@),
    {
        match self {
            VideoOutput::Window => None,
            VideoOutput::Null => Some("null"),
            VideoOutput::Texture => Some("libmpv"),
        }
    }

    /// The numeric selector of this output.
    pub fn code(self) -> (code: i32)
        ensures
            VideoOutput::of_code(code) == self,
            0 <= code <= 2,
    {
        match self {
            VideoOutput::Window => 0,
            VideoOutput::Null => 1,
            VideoOutput::Texture => 2,
        }
    }
}

} // verus!
