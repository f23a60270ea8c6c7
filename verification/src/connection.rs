//! What the registry keeps for one live connection: the state of its control
//! stream, the receive buffers of its inbound data streams, the
//! identifiers of its open outbound data streams and its two datagram queues.

use crate::datagram::{after_offer, delivered_len, DatagramQueue, DEFAULT_DATAGRAM_LIMIT};
use crate::ring_buffer::{accepted_len, after_pop, after_push, popped, taken_len, ReceiveBuffer};
use crate::status::TransportError;
use vstd::prelude::*;

verus! {

/// Capacity in bytes of every receive buffer.
pub const MAX_RECV_BUFFER_SIZE: usize = 65536;

/// First identifier handed to a stream that the caller opens: 2^62. The
/// identifiers that a transport assigns to the streams it accepts are QUIC
/// stream identifiers, which all lie below it.
pub const OUTBOUND_STREAM_ID_BASE: u64 = 0x4000_0000_0000_0000;

/// Receive side of one accepted data stream.
pub struct InboundStream {
    id: u64,
    buffer: ReceiveBuffer,
    ended: bool,
}

/// An inbound data stream as contracts see it.
pub struct StreamView {
    /// Identifier that the transport assigned.
    pub id: u64,
    /// Bytes received and not yet read, oldest first.
    pub data: Seq<u8>,
    /// Whether the transport reported the end of the stream.
    pub ended: bool,
}

impl View for InboundStream {
    type V = StreamView;

    closed spec fn view(&self) -> StreamView {
        StreamView { id: self.id, data: self.buffer@, ended: self.ended }
    }
}

/// A connection as contracts see it.
#[verifier::ext_equal]
pub struct ConnectionView {
    /// Whether the control stream has been opened.
    pub control_open: bool,
    /// Whether the peer closed the control stream or reading it failed.
    pub control_ended: bool,
    /// Control bytes received and not yet read, oldest first.
    pub control: Seq<u8>,
    /// The active inbound data streams, in the order they were accepted.
    pub streams: Seq<StreamView>,
    /// Identifiers of the open outbound data streams, in the order opened.
    pub writers: Seq<u64>,
    /// Datagrams received and not yet read, oldest first.
    pub inbound_datagrams: Seq<Seq<u8>>,
    /// Datagrams queued for sending, oldest first.
    pub outbound_datagrams: Seq<Seq<u8>>,
    /// How many received datagrams were rejected because the queue was full;
    /// the count stops at `u64::MAX`.
    pub dropped_datagrams: nat,
}

/// The identifiers of `streams`, in order.
pub open spec fn stream_ids(streams: Seq<StreamView>) -> Seq<u64> {
    Seq::new(streams.len(), |i: int| streams[i].id)
}

impl ConnectionView {
    /// Whether an inbound stream with this identifier is active.
    pub open spec fn has_stream(self, id: u64) -> bool {
        stream_ids(self.streams).contains(id)
    }

    /// Position of the active inbound stream with this identifier.
    pub open spec fn stream_index(self, id: u64) -> int {
        stream_ids(self.streams).index_of(id)
    }

    /// Whether an outbound stream with this identifier is open.
    pub open spec fn has_writer(self, id: u64) -> bool {
        self.writers.contains(id)
    }

    /// Bounds and uniqueness that hold of every registered connection.
    pub open spec fn wf(self) -> bool {
        &&& self.control.len() <= MAX_RECV_BUFFER_SIZE
        &&& forall|i: int|
            0 <= i < self.streams.len() ==> (#[trigger] self.streams[i]).data.len()
                <= MAX_RECV_BUFFER_SIZE && self.streams[i].id < OUTBOUND_STREAM_ID_BASE
        &&& forall|i: int, j: int|
            0 <= i < j < self.streams.len() ==> (#[trigger] self.streams[i]).id != (
            #[trigger] self.streams[j]).id
        &&& forall|i: int|
            0 <= i < self.writers.len() ==> #[trigger] self.writers[i] >= OUTBOUND_STREAM_ID_BASE
        &&& forall|i: int, j: int|
            0 <= i < j < self.writers.len() ==> #[trigger] self.writers[i]
                != #[trigger] self.writers[j]
        &&& self.inbound_datagrams.len() <= DEFAULT_DATAGRAM_LIMIT
        &&& self.outbound_datagrams.len() <= DEFAULT_DATAGRAM_LIMIT
    }

    /// Whether a stream that the transport accepted under this identifier
    /// is admitted: the identifier lies below the range of caller-opened
    /// streams and names no active stream.
    pub open spec fn admits(self, id: u64) -> bool {
        id < OUTBOUND_STREAM_ID_BASE && !self.has_stream(id)
    }

    /// This connection after the transport accepted a stream under this
    /// identifier: an admitted stream joins the active streams, another
    /// changes nothing.
    pub open spec fn after_accept(self, id: u64) -> ConnectionView {
        if self.admits(id) {
            ConnectionView { streams: self.streams.push(accepted_stream(id)), ..self }
        } else {
            self
        }
    }

    /// This connection after the caller opened a stream under this
    /// identifier.
    pub open spec fn after_open(self, id: u64) -> ConnectionView {
        ConnectionView { writers: self.writers.push(id), ..self }
    }

    /// This connection after the transport reported the end of the inbound
    /// stream with this identifier.
    pub open spec fn after_stream_end(self, id: u64) -> ConnectionView {
        if self.has_stream(id) {
            let i = self.stream_index(id);
            ConnectionView {
                streams: self.streams.update(i, StreamView { ended: true, ..self.streams[i] }),
                ..self
            }
        } else {
            self
        }
    }

    /// The bytes that the active inbound stream with this identifier has
    /// buffered.
    pub open spec fn stream_data(self, id: u64) -> Seq<u8>
        recommends
            self.has_stream(id),
    {
        self.streams[self.stream_index(id)].data
    }

    /// This connection after the caller closed the inbound stream with this
    /// identifier.
    pub open spec fn after_close_stream(self, id: u64) -> ConnectionView {
        if self.has_stream(id) {
            ConnectionView { streams: self.streams.remove(self.stream_index(id)), ..self }
        } else {
            self
        }
    }

    /// This connection after a read of up to `room` bytes from the inbound
    /// stream with this identifier.
    pub open spec fn after_read(self, id: u64, room: nat) -> ConnectionView {
        if self.has_stream(id) {
            let i = self.stream_index(id);
            ConnectionView {
                streams: self.streams.update(
                    i,
                    StreamView { data: after_pop(self.streams[i].data, room), ..self.streams[i] },
                ),
                ..self
            }
        } else {
            self
        }
    }

    /// This connection after `bytes` arrived on the inbound stream with this
    /// identifier.
    pub open spec fn after_arrival(self, id: u64, bytes: Seq<u8>) -> ConnectionView {
        if self.has_stream(id) {
            let i = self.stream_index(id);
            ConnectionView {
                streams: self.streams.update(
                    i,
                    StreamView {
                        data: after_push(self.streams[i].data, MAX_RECV_BUFFER_SIZE as nat, bytes),
                        ..self.streams[i]
                    },
                ),
                ..self
            }
        } else {
            self
        }
    }

    /// This connection after its control stream was opened.
    pub open spec fn after_attach(self) -> ConnectionView {
        ConnectionView { control_open: true, ..self }
    }

    /// This connection after its control stream ended.
    pub open spec fn after_control_end(self) -> ConnectionView {
        ConnectionView { control_ended: true, ..self }
    }

    /// This connection after `bytes` arrived on its control stream.
    pub open spec fn after_control_arrival(self, bytes: Seq<u8>) -> ConnectionView {
        ConnectionView {
            control: after_push(self.control, MAX_RECV_BUFFER_SIZE as nat, bytes),
            ..self
        }
    }

    /// This connection after a read of up to `room` control bytes.
    pub open spec fn after_control_read(self, room: nat) -> ConnectionView {
        ConnectionView { control: after_pop(self.control, room), ..self }
    }

    /// This connection after the writer of the outbound stream with this
    /// identifier left the registry.
    pub open spec fn after_finish(self, id: u64) -> ConnectionView {
        if self.has_writer(id) {
            ConnectionView { writers: self.writers.remove(self.writers.index_of(id)), ..self }
        } else {
            self
        }
    }

    /// Whether the queue of received datagrams has room for one more.
    pub open spec fn admits_datagram(self) -> bool {
        self.inbound_datagrams.len() < DEFAULT_DATAGRAM_LIMIT
    }

    /// This connection after a datagram arrived: it is queued if there is
    /// room, and rejected and counted if there is none.
    pub open spec fn after_datagram_arrival(self, datagram: Seq<u8>) -> ConnectionView {
        ConnectionView {
            inbound_datagrams: after_offer(
                self.inbound_datagrams,
                DEFAULT_DATAGRAM_LIMIT as nat,
                datagram,
            ),
            dropped_datagrams: if self.admits_datagram() || self.dropped_datagrams == u64::MAX {
                self.dropped_datagrams
            } else {
                self.dropped_datagrams + 1
            },
            ..self
        }
    }

    /// This connection after the oldest received datagram, if any, was read.
    pub open spec fn after_datagram_read(self) -> ConnectionView {
        if self.inbound_datagrams.len() > 0 {
            ConnectionView { inbound_datagrams: self.inbound_datagrams.skip(1), ..self }
        } else {
            self
        }
    }

    /// Whether the queue of datagrams to send has room for one more.
    pub open spec fn can_queue_datagram(self) -> bool {
        self.outbound_datagrams.len() < DEFAULT_DATAGRAM_LIMIT
    }

    /// This connection after a datagram was offered for sending: it is
    /// queued if there is room.
    pub open spec fn after_datagram_queued(self, datagram: Seq<u8>) -> ConnectionView {
        ConnectionView {
            outbound_datagrams: after_offer(
                self.outbound_datagrams,
                DEFAULT_DATAGRAM_LIMIT as nat,
                datagram,
            ),
            ..self
        }
    }

    /// This connection after the oldest datagram to send, if any, was taken.
    pub open spec fn after_datagram_taken(self) -> ConnectionView {
        if self.outbound_datagrams.len() > 0 {
            ConnectionView { outbound_datagrams: self.outbound_datagrams.skip(1), ..self }
        } else {
            self
        }
    }

    /// A connection right after its handshake: no control stream yet, no
    /// data stream, nothing buffered.
    pub open spec fn fresh() -> ConnectionView {
        ConnectionView {
            control_open: false,
            control_ended: false,
            control: Seq::empty(),
            streams: Seq::empty(),
            writers: Seq::empty(),
            inbound_datagrams: Seq::empty(),
            outbound_datagrams: Seq::empty(),
            dropped_datagrams: 0,
        }
    }
}

/// In a well-formed connection an identifier names at most one inbound
/// stream, so its position is the one place it is found at.
pub proof fn lemma_stream_index(view: ConnectionView, i: int)
    requires
        view.wf(),
        0 <= i < view.streams.len(),
    ensures
        view.has_stream(view.streams[i].id),
        view.stream_index(view.streams[i].id) == i,
{
    let ids = stream_ids(view.streams);
    let id = view.streams[i].id;
    assert(ids[i] == id);
    let found = ids.index_of(id);
    assert(0 <= found < ids.len() && ids[found] == id);
    if found < i {
        assert(view.streams[found].id != view.streams[i].id);
    } else if i < found {
        assert(view.streams[i].id != view.streams[found].id);
    }
}

/// Accepting a stream keeps a connection well-formed; an admitted stream is
/// active afterwards, at the end of the active streams, and the other
/// streams are as they were.
pub proof fn lemma_accept(connection: ConnectionView, stream_id: u64)
    requires
        connection.wf(),
    ensures
        connection.after_accept(stream_id).wf(),
        connection.admits(stream_id) ==> connection.after_accept(stream_id).has_stream(stream_id)
            && stream_ids(connection.after_accept(stream_id).streams) == stream_ids(
            connection.streams,
        ).push(stream_id),
        connection.after_accept(stream_id).writers == connection.writers,
{
    let after = connection.after_accept(stream_id);
    if connection.admits(stream_id) {
        assert(stream_ids(after.streams) =~= stream_ids(connection.streams).push(stream_id));
        assert(stream_ids(after.streams)[connection.streams.len() as int] == stream_id);
        assert forall|i: int, j: int| 0 <= i < j < after.streams.len() implies (
        #[trigger] after.streams[i]).id != (#[trigger] after.streams[j]).id by {
            if j == connection.streams.len() {
                assert(stream_ids(connection.streams)[i] == connection.streams[i].id);
            }
        }
    }
}

/// Opening a stream under an identifier that is in the caller's range and
/// not in use keeps a connection well-formed; the stream is open afterwards.
pub proof fn lemma_open(connection: ConnectionView, stream_id: u64)
    requires
        connection.wf(),
        stream_id >= OUTBOUND_STREAM_ID_BASE,
        !connection.has_writer(stream_id),
    ensures
        connection.after_open(stream_id).wf(),
        connection.after_open(stream_id).has_writer(stream_id),
        connection.after_open(stream_id).streams == connection.streams,
{
    let after = connection.after_open(stream_id);
    assert(after.writers[connection.writers.len() as int] == stream_id);
    assert forall|i: int, j: int| 0 <= i < j < after.writers.len() implies #[trigger] after.writers[i]
        != #[trigger] after.writers[j] by {
        if j == connection.writers.len() {
            assert(connection.writers.contains(connection.writers[i]));
        }
    }
}

/// State of one live connection.
pub struct ConnectionEntry {
    control_open: bool,
    control_ended: bool,
    control: ReceiveBuffer,
    streams: Vec<InboundStream>,
    writers: Vec<u64>,
    inbound_datagrams: DatagramQueue,
    outbound_datagrams: DatagramQueue,
}

impl View for ConnectionEntry {
    type V = ConnectionView;

    closed spec fn view(&self) -> ConnectionView {
        ConnectionView {
            control_open: self.control_open,
            control_ended: self.control_ended,
            control: self.control@,
            streams: Seq::new(self.streams@.len(), |i: int| self.streams@[i]@),
            writers: self.writers@,
            inbound_datagrams: self.inbound_datagrams@,
            outbound_datagrams: self.outbound_datagrams@,
            dropped_datagrams: self.inbound_datagrams.spec_dropped(),
        }
    }
}

impl ConnectionEntry {
    /// Every buffer has its fixed capacity and respects it, and what the view
    /// shows is well-formed.
    pub closed spec fn wf(&self) -> bool {
        &&& self@.wf()
        &&& self.control.wf()
        &&& self.control.capacity() == MAX_RECV_BUFFER_SIZE
        &&& forall|i: int|
            0 <= i < self.streams@.len() ==> (#[trigger] self.streams@[i]).buffer.wf()
                && self.streams@[i].buffer.capacity() == MAX_RECV_BUFFER_SIZE
        &&& self.inbound_datagrams.wf()
        &&& self.inbound_datagrams.limit() == DEFAULT_DATAGRAM_LIMIT
        &&& self.outbound_datagrams.wf()
        &&& self.outbound_datagrams.limit() == DEFAULT_DATAGRAM_LIMIT
    }

    /// What is well-formed shows a well-formed view.
    pub proof fn lemma_wf_view(&self)
        requires
            self.wf(),
        ensures
            self@.wf(),
    {
    }

    /// The state of a connection right after its handshake.
    pub fn new() -> (entry: ConnectionEntry)
        ensures
            entry.wf(),
            entry@ == ConnectionView::fresh(),
    {
        let entry = ConnectionEntry {
            control_open: false,
            control_ended: false,
            control: ReceiveBuffer::new(MAX_RECV_BUFFER_SIZE),
            streams: Vec::new(),
            writers: Vec::new(),
            inbound_datagrams: DatagramQueue::new(DEFAULT_DATAGRAM_LIMIT),
            outbound_datagrams: DatagramQueue::new(DEFAULT_DATAGRAM_LIMIT),
        };
        assert(entry@ =~= ConnectionView::fresh());
        entry
    }

    /// Records that the control stream has been opened. It is opened once:
    /// a second report is refused and changes nothing.
    pub fn attach_control(&mut self) -> (outcome: Result<(), TransportError>)
        requires
            old(self).wf(),
        ensures
            final(self).wf(),
            final(self)@ == old(self)@.after_attach(),
            outcome == if old(self)@.control_open {
                Err::<(), TransportError>(TransportError::Conflict)
            } else {
                Ok::<(), TransportError>(())
            },
    {
        let outcome = if self.control_open {
            Err(TransportError::Conflict)
        } else {
            Ok(())
        };
        self.control_open = true;
        assert(self@ =~= old(self)@.after_attach());
        outcome
    }

    /// Whether the control stream has been opened.
    pub fn control_open(&self) -> (open: bool)
        ensures
            open == self@.control_open,
    {
        self.control_open
    }

    /// Records that the control stream will deliver nothing more.
    pub fn end_control(&mut self)
        requires
            old(self).wf(),
        ensures
            final(self).wf(),
            final(self)@ == old(self)@.after_control_end(),
    {
        self.control_ended = true;
        assert(self@ =~= old(self)@.after_control_end());
    }

    /// Whether the control stream will deliver nothing more.
    pub fn control_ended(&self) -> (ended: bool)
        ensures
            ended == self@.control_ended,
    {
        self.control_ended
    }

    /// Buffers control bytes that arrived; returns how many were accepted.
    pub fn push_control(&mut self, bytes: &[u8]) -> (accepted: usize)
        requires
            old(self).wf(),
        ensures
            final(self).wf(),
            final(self)@ == old(self)@.after_control_arrival(bytes@),
            accepted == accepted_len(
                old(self)@.control.len(),
                MAX_RECV_BUFFER_SIZE as nat,
                bytes@.len(),
            ),
    {
        let accepted: usize = self.control.push(bytes);
        assert(self@ =~= old(self)@.after_control_arrival(bytes@));
        accepted
    }

    /// Moves buffered control bytes into `dest`; returns how many.
    pub fn pop_control(&mut self, dest: &mut [u8]) -> (read: usize)
        requires
            old(self).wf(),
        ensures
            final(self).wf(),
            final(self)@ == old(self)@.after_control_read(old(dest)@.len()),
            read == taken_len(old(self)@.control.len(), old(dest)@.len()),
            final(dest)@ == popped(old(self)@.control, old(dest)@.len()) + old(dest)@.skip(
                read as int,
            ),
    {
        let read: usize = self.control.pop(dest);
        assert(self@ =~= old(self)@.after_control_read(old(dest)@.len()));
        read
    }
}

} // verus!

verus! {

/// The stream that an accepted identifier starts as: nothing buffered, not
/// ended.
pub open spec fn accepted_stream(id: u64) -> StreamView {
    StreamView { id, data: Seq::empty(), ended: false }
}

impl ConnectionEntry {
    /// Position of the inbound stream with this identifier.
    fn stream_position(&self, id: u64) -> (found: Option<usize>)
        requires
            self.wf(),
        ensures
            found is Some <==> self@.has_stream(id),
            found matches Some(i) ==> i < self@.streams.len() && i == self@.stream_index(id)
                && self@.streams[i as int].id == id,
    {
        let mut i: usize = 0;
        while i < self.streams.len()
            invariant
                i <= self.streams@.len(),
                self.wf(),
                forall|j: int| 0 <= j < i ==> self@.streams[j].id != id,
            decreases self.streams@.len() - i,
        {
            if self.streams[i].id == id {
                proof {
                    assert(self@.streams[i as int].id == id);
                    lemma_stream_index(self@, i as int);
                }
                return Some(i);
            }
            i = i + 1;
        }
        proof {
            let ids = stream_ids(self@.streams);
            if ids.contains(id) {
                let k = choose|k: int| 0 <= k < ids.len() && ids[k] == id;
                assert(self@.streams[k].id == id);
            }
        }
        None
    }

    /// Registers a data stream that the transport accepted under its stream
    /// identifier. An identifier names one stream only, and what lies at or
    /// above `OUTBOUND_STREAM_ID_BASE`, where no transport identifier lies,
    /// belongs to the streams the caller opens: either is refused and
    /// changes nothing.
    pub fn accept_stream(&mut self, id: u64) -> (outcome: Result<(), TransportError>)
        requires
            old(self).wf(),
        ensures
            final(self).wf(),
            final(self)@ == old(self)@.after_accept(id),
            outcome == if old(self)@.admits(id) {
                Ok::<(), TransportError>(())
            } else {
                Err::<(), TransportError>(TransportError::Conflict)
            },
            outcome is Ok ==> final(self)@.has_stream(id) && final(self)@.stream_data(id)
                == Seq::<u8>::empty(),
    {
        if id >= OUTBOUND_STREAM_ID_BASE {
            return Err(TransportError::Conflict);
        }
        match self.stream_position(id) {
            Some(_) => Err(TransportError::Conflict),
            None => {
                let stream = InboundStream {
                    id,
                    buffer: ReceiveBuffer::new(MAX_RECV_BUFFER_SIZE),
                    ended: false,
                };
                self.streams.push(stream);
                proof {
                    let before = old(self)@;
                    let after = before.after_accept(id);
                    assert(self@.streams =~= after.streams);
                    assert(self@.writers =~= after.writers);
                    assert(self@ =~= after);
                    lemma_accept(before, id);
                    lemma_stream_index(after, before.streams.len() as int);
                }
                Ok(())
            },
        }
    }

    /// Buffers bytes that arrived on an inbound stream; returns how many were
    /// accepted.
    pub fn push_stream(&mut self, id: u64, bytes: &[u8]) -> (outcome: Result<
        usize,
        TransportError,
    >)
        requires
            old(self).wf(),
        ensures
            final(self).wf(),
            final(self)@ == old(self)@.after_arrival(id, bytes@),
            outcome is Ok <==> old(self)@.has_stream(id),
            outcome matches Err(error) ==> error == TransportError::NotFound,
            outcome matches Ok(accepted) ==> accepted == accepted_len(
                old(self)@.stream_data(id).len(),
                MAX_RECV_BUFFER_SIZE as nat,
                bytes@.len(),
            ),
            outcome is Ok ==> final(self)@.has_stream(id) && final(self)@.stream_data(id)
                == after_push(old(self)@.stream_data(id), MAX_RECV_BUFFER_SIZE as nat, bytes@),
    {
        match self.stream_position(id) {
            None => Err(TransportError::NotFound),
            Some(i) => {
                let accepted: usize = self.streams[i].buffer.push(bytes);
                proof {
                    let after = old(self)@.after_arrival(id, bytes@);
                    assert(self@.streams =~= after.streams);
                    assert(self@.writers =~= after.writers);
                    assert(self@ =~= after);
                    assert(stream_ids(after.streams) =~= stream_ids(old(self)@.streams));
                }
                Ok(accepted)
            },
        }
    }

    /// Moves buffered bytes of an inbound stream into `dest`; returns how
    /// many, 0 when nothing is buffered.
    pub fn pop_stream(&mut self, id: u64, dest: &mut [u8]) -> (outcome: Result<
        usize,
        TransportError,
    >)
        requires
            old(self).wf(),
        ensures
            final(self).wf(),
            final(self)@ == old(self)@.after_read(id, old(dest)@.len()),
            final(dest)@.len() == old(dest)@.len(),
            outcome is Ok <==> old(self)@.has_stream(id),
            outcome matches Err(error) ==> error == TransportError::NotFound && final(dest)@
                == old(dest)@,
            outcome matches Ok(read) ==> read == taken_len(
                old(self)@.stream_data(id).len(),
                old(dest)@.len(),
            ) && final(dest)@ == popped(old(self)@.stream_data(id), old(dest)@.len()) + old(dest)@.skip(read as int),
            outcome is Ok ==> final(self)@.has_stream(id) && final(self)@.stream_data(id)
                == after_pop(old(self)@.stream_data(id), old(dest)@.len()),
    {
        match self.stream_position(id) {
            None => Err(TransportError::NotFound),
            Some(i) => {
                let read: usize = self.streams[i].buffer.pop(dest);
                proof {
                    let after = old(self)@.after_read(id, old(dest)@.len());
                    assert(self@.streams =~= after.streams);
                    assert(self@.writers =~= after.writers);
                    assert(self@ =~= after);
                    assert(stream_ids(after.streams) =~= stream_ids(old(self)@.streams));
                }
                Ok(read)
            },
        }
    }

    /// Records that the transport reported the end of an inbound stream. The
    /// stream stays registered, with what it has buffered, until it is
    /// closed.
    pub fn end_stream(&mut self, id: u64) -> (outcome: Result<(), TransportError>)
        requires
            old(self).wf(),
        ensures
            final(self).wf(),
            final(self)@ == old(self)@.after_stream_end(id),
            outcome == if old(self)@.has_stream(id) {
                Ok::<(), TransportError>(())
            } else {
                Err::<(), TransportError>(TransportError::NotFound)
            },
            outcome is Ok ==> final(self)@.has_stream(id) && final(self)@.stream_data(id) == old(self)@.stream_data(id),
    {
        match self.stream_position(id) {
            None => Err(TransportError::NotFound),
            Some(i) => {
                self.streams[i].ended = true;
                proof {
                    let after = old(self)@.after_stream_end(id);
                    assert(self@.streams =~= after.streams);
                    assert(self@.writers =~= after.writers);
                    assert(self@ =~= after);
                    assert(stream_ids(after.streams) =~= stream_ids(old(self)@.streams));
                }
                Ok(())
            },
        }
    }

    /// Whether the transport reported the end of an inbound stream.
    pub fn stream_ended(&self, id: u64) -> (outcome: Result<bool, TransportError>)
        requires
            self.wf(),
        ensures
            outcome == if self@.has_stream(id) {
                Ok::<bool, TransportError>(self@.streams[self@.stream_index(id)].ended)
            } else {
                Err::<bool, TransportError>(TransportError::NotFound)
            },
    {
        match self.stream_position(id) {
            None => Err(TransportError::NotFound),
            Some(i) => Ok(self.streams[i].ended),
        }
    }

    /// Removes an inbound stream and discards what it has buffered: the
    /// caller's acknowledgement that it is done with the stream.
    pub fn close_stream(&mut self, id: u64) -> (outcome: Result<(), TransportError>)
        requires
            old(self).wf(),
        ensures
            final(self).wf(),
            final(self)@ == old(self)@.after_close_stream(id),
            outcome == if old(self)@.has_stream(id) {
                Ok::<(), TransportError>(())
            } else {
                Err::<(), TransportError>(TransportError::NotFound)
            },
            !final(self)@.has_stream(id),
    {
        match self.stream_position(id) {
            None => Err(TransportError::NotFound),
            Some(i) => {
                let _ = self.streams.remove(i);
                proof {
                    let before = old(self)@;
                    let after = before.after_close_stream(id);
                    assert(self@.streams =~= after.streams);
                    assert(self@.writers =~= after.writers);
                    assert(self@ =~= after);
                    // The identifier occurred once, so it is gone now.
                    let ids = stream_ids(after.streams);
                    if ids.contains(id) {
                        let k = choose|k: int| 0 <= k < ids.len() && ids[k] == id;
                        if k < i {
                            assert(before.streams[k].id == id);
                        } else {
                            assert(before.streams[k + 1].id == id);
                        }
                        assert(before.streams[i as int].id == id);
                    }
                }
                Ok(())
            },
        }
    }

    /// The identifiers of the active inbound streams in the order they were
    /// accepted, the first `max` of them at most.
    pub fn list_streams(&self, max: usize) -> (ids: Vec<u64>)
        requires
            self.wf(),
        ensures
            ids@ == stream_ids(self@.streams).take(
                taken_len(self@.streams.len(), max as nat) as int,
            ),
    {
        let count: usize = if max <= self.streams.len() {
            max
        } else {
            self.streams.len()
        };
        let mut ids: Vec<u64> = Vec::new();
        let mut i: usize = 0;
        while i < count
            invariant
                i <= count,
                count <= self.streams@.len(),
                ids@ == stream_ids(self@.streams).take(i as int),
            decreases count - i,
        {
            ids.push(self.streams[i].id);
            assert(ids@ =~= stream_ids(self@.streams).take(i + 1));
            i = i + 1;
        }
        ids
    }
}

} // verus!

verus! {

impl ConnectionEntry {
    /// Position of the writer of the outbound stream with this identifier.
    fn writer_position(&self, id: u64) -> (found: Option<usize>)
        requires
            self.wf(),
        ensures
            found is Some <==> self@.has_writer(id),
            found matches Some(i) ==> i < self@.writers.len() && i == self@.writers.index_of(id)
                && self@.writers[i as int] == id,
    {
        let mut i: usize = 0;
        while i < self.writers.len()
            invariant
                i <= self.writers@.len(),
                self.wf(),
                forall|j: int| 0 <= j < i ==> self@.writers[j] != id,
            decreases self.writers@.len() - i,
        {
            if self.writers[i] == id {
                proof {
                    let found = self@.writers.index_of(id);
                    assert(self@.writers[i as int] == id);
                    assert(0 <= found < self@.writers.len() && self@.writers[found] == id);
                }
                return Some(i);
            }
            i = i + 1;
        }
        None
    }

    /// Whether an outbound stream with this identifier is open.
    pub fn has_writer(&self, id: u64) -> (open: bool)
        requires
            self.wf(),
        ensures
            open == self@.has_writer(id),
    {
        self.writer_position(id).is_some()
    }

    /// Records an outbound stream that was just opened.
    pub(crate) fn add_writer(&mut self, id: u64)
        requires
            old(self).wf(),
            id >= OUTBOUND_STREAM_ID_BASE,
            !old(self)@.has_writer(id),
        ensures
            final(self).wf(),
            final(self)@ == old(self)@.after_open(id),
    {
        self.writers.push(id);
        proof {
            let before = old(self)@;
            let after = before.after_open(id);
            assert(self@.streams =~= after.streams);
            assert(self@.writers =~= after.writers);
            assert(self@ =~= after);
            lemma_open(before, id);
        }
    }

    /// Forgets an outbound stream whose writer has left the registry.
    /// Returns whether the stream was open.
    pub fn remove_writer(&mut self, id: u64) -> (removed: bool)
        requires
            old(self).wf(),
        ensures
            final(self).wf(),
            final(self)@ == old(self)@.after_finish(id),
            removed == old(self)@.has_writer(id),
            !final(self)@.has_writer(id),
            forall|other: u64|
                other != id ==> #[trigger] final(self)@.has_writer(other) == old(self)@.has_writer(
                    other,
                ),
    {
        match self.writer_position(id) {
            None => false,
            Some(i) => {
                let _ = self.writers.remove(i);
                proof {
                    let before = old(self)@;
                    let after = before.after_finish(id);
                    assert(self@.streams =~= after.streams);
                    assert(self@.writers =~= after.writers);
                    assert(self@ =~= after);
                    // The identifier occurred once, so it is gone now.
                    if after.writers.contains(id) {
                        let k = choose|k: int|
                            0 <= k < after.writers.len() && after.writers[k] == id;
                        if k < i {
                            assert(before.writers[k] == id);
                        } else {
                            assert(before.writers[k + 1] == id);
                        }
                        assert(before.writers[i as int] == id);
                    }
                    // Every other identifier is where it was, or one place
                    // further down.
                    assert forall|other: u64| other != id implies #[trigger] after.has_writer(other)
                        == before.has_writer(other) by {
                        if before.writers.contains(other) {
                            let k = choose|k: int|
                                0 <= k < before.writers.len() && before.writers[k] == other;
                            if k < i {
                                assert(after.writers[k] == other);
                            } else {
                                assert(after.writers[k - 1] == other);
                            }
                        }
                        if after.writers.contains(other) {
                            let k = choose|k: int|
                                0 <= k < after.writers.len() && after.writers[k] == other;
                            if k < i {
                                assert(before.writers[k] == other);
                            } else {
                                assert(before.writers[k + 1] == other);
                            }
                        }
                    }
                }
                true
            },
        }
    }

    /// Queues a datagram that arrived, whole. A full queue rejects it and
    /// counts the rejection. Returns whether it was queued.
    pub fn push_inbound_datagram(&mut self, datagram: &[u8]) -> (queued: bool)
        requires
            old(self).wf(),
        ensures
            final(self).wf(),
            final(self)@ == old(self)@.after_datagram_arrival(datagram@),
            queued == old(self)@.admits_datagram(),
    {
        let queued: bool = self.inbound_datagrams.push(datagram);
        assert(self@ =~= old(self)@.after_datagram_arrival(datagram@));
        queued
    }

    /// Takes the oldest received datagram and copies it into the start of
    /// `dest`; bytes that do not fit are discarded. Returns the number of
    /// bytes copied, `None` when no datagram is queued.
    pub fn pop_inbound_datagram(&mut self, dest: &mut [u8]) -> (copied: Option<usize>)
        requires
            old(self).wf(),
        ensures
            final(self).wf(),
            final(self)@ == old(self)@.after_datagram_read(),
            final(dest)@.len() == old(dest)@.len(),
            old(self)@.inbound_datagrams.len() == 0 ==> copied is None && final(dest)@ == old(dest)@,
            old(self)@.inbound_datagrams.len() > 0 ==> {
                let datagram = old(self)@.inbound_datagrams[0];
                let count = delivered_len(datagram.len(), old(dest)@.len());
                &&& copied == Some(count)
                &&& final(dest)@ == datagram.take(count as int) + old(dest)@.skip(count as int)
            },
    {
        let copied: Option<usize> = self.inbound_datagrams.pop(dest);
        assert(self@ =~= old(self)@.after_datagram_read());
        copied
    }

    /// Queues a datagram for sending, whole. A full queue rejects it.
    pub fn queue_outbound_datagram(&mut self, datagram: &[u8]) -> (outcome: Result<
        usize,
        TransportError,
    >)
        requires
            old(self).wf(),
        ensures
            final(self).wf(),
            final(self)@ == old(self)@.after_datagram_queued(datagram@),
            outcome == if old(self)@.can_queue_datagram() {
                Ok::<usize, TransportError>(datagram.len())
            } else {
                Err::<usize, TransportError>(TransportError::QueueFull)
            },
    {
        let queued: bool = self.outbound_datagrams.push(datagram);
        assert(self@ =~= old(self)@.after_datagram_queued(datagram@));
        if queued {
            Ok(datagram.len())
        } else {
            Err(TransportError::QueueFull)
        }
    }

    /// Takes the oldest datagram that is queued for sending.
    pub fn take_outbound_datagram(&mut self) -> (datagram: Option<Vec<u8>>)
        requires
            old(self).wf(),
        ensures
            final(self).wf(),
            final(self)@ == old(self)@.after_datagram_taken(),
            datagram is Some <==> old(self)@.outbound_datagrams.len() > 0,
            datagram matches Some(bytes) ==> bytes@ == old(self)@.outbound_datagrams[0],
    {
        let datagram: Option<Vec<u8>> = self.outbound_datagrams.take();
        assert(self@ =~= old(self)@.after_datagram_taken());
        datagram
    }
}

} // verus!

verus! {

impl ConnectionEntry {
    /// How many received datagrams were rejected because the queue was full.
    pub fn dropped_datagrams(&self) -> (count: u64)
        ensures
            count == self@.dropped_datagrams,
    {
        self.inbound_datagrams.dropped()
    }
}

} // verus!
