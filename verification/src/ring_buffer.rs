//! Fixed-capacity FIFO byte queue used to buffer what a stream has received.

use std::collections::VecDeque;
use vstd::prelude::*;

verus! {

/// Number of leading bytes of a chunk of `incoming` bytes that fit into a queue
/// that holds `held` bytes and is limited to `capacity`.
pub open spec fn accepted_len(held: nat, capacity: nat, incoming: nat) -> nat {
    if held >= capacity {
        0
    } else if incoming <= capacity - held {
        incoming
    } else {
        (capacity - held) as nat
    }
}

/// Queue contents after a chunk was offered: the bytes that fit are appended
/// in order, the rest of the chunk is discarded.
pub open spec fn after_push(held: Seq<u8>, capacity: nat, chunk: Seq<u8>) -> Seq<u8> {
    held + chunk.take(accepted_len(held.len(), capacity, chunk.len()) as int)
}

/// Number of bytes a read into a destination of `room` bytes takes from a
/// queue that holds `held` bytes.
pub open spec fn taken_len(held: nat, room: nat) -> nat {
    if room <= held {
        room
    } else {
        held
    }
}

/// Bounded FIFO byte queue. Writing never blocks and never grows the queue
/// past its capacity: bytes that do not fit are dropped.
pub struct ReceiveBuffer {
    data: VecDeque<u8>,
    max_size: usize,
}

impl View for ReceiveBuffer {
    type V = Seq<u8>;

    /// The queued bytes, oldest first.
    closed spec fn view(&self) -> Seq<u8> {
        self.data@
    }
}

impl ReceiveBuffer {
    /// The fixed capacity in bytes.
    pub closed spec fn capacity(&self) -> nat {
        self.max_size as nat
    }

    /// The occupancy never exceeds the capacity.
    pub open spec fn wf(&self) -> bool {
        self@.len() <= self.capacity()
    }

    /// An empty queue of the given capacity.
    pub fn new(max_size: usize) -> (buffer: Self)
        ensures
            buffer.wf(),
            buffer@ == Seq::<u8>::empty(),
            buffer.capacity() == max_size,
    {
        ReceiveBuffer { data: VecDeque::with_capacity(1024), max_size }
    }

    /// Appends as many leading bytes of `bytes` as fit and returns how many
    /// were accepted.
    pub fn push(&mut self, bytes: &[u8]) -> (accepted: usize)
        requires
            old(self).wf(),
        ensures
            final(self).wf(),
            accepted == accepted_len(old(self)@.len(), old(self).capacity(), bytes@.len()),
            final(self)@ == after_push(old(self)@, old(self).capacity(), bytes@),
            final(self).capacity() == old(self).capacity(),
    {
        let available: usize = self.max_size - self.data.len();
        let to_copy: usize = if bytes.len() <= available {
            bytes.len()
        } else {
            available
        };
        let mut i: usize = 0;
        while i < to_copy
            invariant
                i <= to_copy,
                to_copy <= bytes@.len(),
                old(self).data@.len() + to_copy <= self.max_size,
                self.max_size == old(self).max_size,
                self.data@ == old(self).data@ + bytes@.take(i as int),
            decreases to_copy - i,
        {
            self.data.push_back(bytes[i]);
            proof {
                assert(bytes@.take(i as int).push(bytes@[i as int]) =~= bytes@.take(i + 1));
            }
            i = i + 1;
        }
        to_copy
    }

    /// Moves up to `buf.len()` bytes from the front of the queue into the
    /// start of `buf` and returns how many were moved; 0 when the queue is
    /// empty.
    pub fn pop(&mut self, buf: &mut [u8]) -> (read: usize)
        requires
            old(self).wf(),
        ensures
            final(self).wf(),
            read == taken_len(old(self)@.len(), old(buf)@.len()),
            final(buf)@ == popped(old(self)@, old(buf)@.len()) + old(buf)@.skip(read as int),
            final(self)@ == after_pop(old(self)@, old(buf)@.len()),
            final(self).capacity() == old(self).capacity(),
    {
        let to_read: usize = if buf.len() <= self.data.len() {
            buf.len()
        } else {
            self.data.len()
        };
        let mut i: usize = 0;
        while i < to_read
            invariant
                i <= to_read,
                to_read <= old(self).data@.len(),
                to_read <= old(buf)@.len(),
                buf@.len() == old(buf)@.len(),
                self.max_size == old(self).max_size,
                self.data@ == old(self).data@.skip(i as int),
                buf@ == old(self).data@.take(i as int) + old(buf)@.skip(i as int),
            decreases to_read - i,
        {
            let front: Option<u8> = self.data.pop_front();
            match front {
                Some(byte) => {
                    buf[i] = byte;
                },
                None => {},
            }
            i = i + 1;
        }
        to_read
    }

    /// Number of queued bytes.
    pub fn len(&self) -> (n: usize)
        ensures
            n == self@.len(),
    {
        self.data.len()
    }

    /// Whether no byte is queued.
    pub fn is_empty(&self) -> (empty: bool)
        ensures
            empty <==> self@.len() == 0,
    {
        self.data.len() == 0
    }
}

} // verus!

verus! {

/// All bytes of `chunks`, in order.
pub open spec fn joined(chunks: Seq<Seq<u8>>) -> Seq<u8>
    decreases chunks.len(),
{
    if chunks.len() == 0 {
        Seq::empty()
    } else {
        chunks[0] + joined(chunks.skip(1))
    }
}

/// Queue contents after the chunks were offered one after the other.
pub open spec fn after_pushes(held: Seq<u8>, capacity: nat, chunks: Seq<Seq<u8>>) -> Seq<u8>
    decreases chunks.len(),
{
    if chunks.len() == 0 {
        held
    } else {
        after_pushes(after_push(held, capacity, chunks[0]), capacity, chunks.skip(1))
    }
}

/// Sum of the accepted counts that the pushes of `after_pushes` report.
pub open spec fn accepted_total(held: Seq<u8>, capacity: nat, chunks: Seq<Seq<u8>>) -> nat
    decreases chunks.len(),
{
    if chunks.len() == 0 {
        0
    } else {
        accepted_len(held.len(), capacity, chunks[0].len()) + accepted_total(
            after_push(held, capacity, chunks[0]),
            capacity,
            chunks.skip(1),
        )
    }
}

/// Length of a queue that was offered `offered` more bytes in all.
pub open spec fn filled_len(held: nat, capacity: nat, offered: nat) -> nat {
    if held + offered <= capacity {
        held + offered
    } else {
        capacity
    }
}

/// A run of pushes keeps exactly the leading bytes of everything offered that
/// fit, in the order offered, and the accepted counts add up to what was
/// kept.
pub proof fn lemma_pushes_keep_prefix(held: Seq<u8>, capacity: nat, chunks: Seq<Seq<u8>>)
    requires
        held.len() <= capacity,
    ensures
        after_pushes(held, capacity, chunks) == (held + joined(chunks)).take(
            filled_len(held.len(), capacity, joined(chunks).len()) as int,
        ),
        accepted_total(held, capacity, chunks) == filled_len(
            held.len(),
            capacity,
            joined(chunks).len(),
        ) - held.len(),
    decreases chunks.len(),
{
    if chunks.len() == 0 {
        assert((held + joined(chunks)).take(held.len() as int) =~= held);
    } else {
        let first = chunks[0];
        let rest = chunks.skip(1);
        let next = after_push(held, capacity, first);
        let all = held + joined(chunks);
        let kept = filled_len(held.len(), capacity, joined(chunks).len());
        lemma_pushes_keep_prefix(next, capacity, rest);
        if held.len() + first.len() <= capacity {
            assert(first.take(first.len() as int) =~= first);
            assert(next + joined(rest) =~= all);
        } else {
            assert(next.len() == capacity);
            assert((next + joined(rest)).take(capacity as int) =~= next);
            assert(all.take(kept as int) =~= next);
        }
    }
}

/// When more is offered than fits, the queue ends up exactly full, the
/// accepted counts add up to the room there was, and the bytes kept are the
/// first ones offered, in order.
pub proof fn lemma_overfull_pushes_fill_exactly(
    held: Seq<u8>,
    capacity: nat,
    chunks: Seq<Seq<u8>>,
)
    requires
        held.len() <= capacity,
        held.len() + joined(chunks).len() >= capacity,
    ensures
        after_pushes(held, capacity, chunks).len() == capacity,
        accepted_total(held, capacity, chunks) == capacity - held.len(),
        after_pushes(held, capacity, chunks) == (held + joined(chunks)).take(capacity as int),
{
    lemma_pushes_keep_prefix(held, capacity, chunks);
}

/// What a read into a destination of `room` bytes hands out.
pub open spec fn popped(held: Seq<u8>, room: nat) -> Seq<u8> {
    held.take(taken_len(held.len(), room) as int)
}

/// What stays queued after that read.
pub open spec fn after_pop(held: Seq<u8>, room: nat) -> Seq<u8> {
    held.skip(taken_len(held.len(), room) as int)
}

/// First in, first out: after two chunks that both fit were pushed onto an
/// empty queue, reads hand out the first chunk and then the second, and no
/// read hands out more than was pushed.
pub proof fn lemma_fifo(capacity: nat, first: Seq<u8>, second: Seq<u8>, room: nat)
    requires
        first.len() + second.len() <= capacity,
    ensures
        after_push(after_push(Seq::empty(), capacity, first), capacity, second) == first + second,
        popped(first + second, room) == (first + second).take(
            taken_len((first + second).len(), room) as int,
        ),
        popped(first + second, room).len() <= first.len() + second.len(),
        popped(first + second, first.len()) == first,
        popped(after_pop(first + second, first.len()), second.len()) == second,
        after_pop(after_pop(first + second, first.len()), second.len()) == Seq::<u8>::empty(),
{
    let empty = Seq::<u8>::empty();
    assert(first.take(first.len() as int) =~= first);
    assert(second.take(second.len() as int) =~= second);
    assert(after_push(empty, capacity, first) =~= first);
    assert(after_push(first, capacity, second) =~= first + second);
    assert((first + second).take(first.len() as int) =~= first);
    assert((first + second).skip(first.len() as int) =~= second);
    assert(second.skip(second.len() as int) =~= empty);
}

/// Reading in pieces loses nothing and reorders nothing: what two reads in a
/// row hand out is what one read with the combined room hands out.
pub proof fn lemma_partial_reads_concatenate(held: Seq<u8>, room_a: nat, room_b: nat)
    ensures
        popped(held, room_a) + popped(after_pop(held, room_a), room_b) == popped(
            held,
            room_a + room_b,
        ),
        after_pop(after_pop(held, room_a), room_b) == after_pop(held, room_a + room_b),
{
    assert(popped(held, room_a) + popped(after_pop(held, room_a), room_b) =~= popped(
        held,
        room_a + room_b,
    ));
    assert(after_pop(after_pop(held, room_a), room_b) =~= after_pop(held, room_a + room_b));
}

} // verus!
