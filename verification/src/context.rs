//! The transport context: the registry of live connections together with the
//! two identifier allocators, and the operations that a polling caller and
//! the background tasks perform on it.
//!
//! No operation blocks, and none fails on an unknown identifier other than by
//! reporting it. The transport itself is driven from outside: the operations
//! here record what happened on it and decide what is handed to the caller.

use crate::connection::{
    stream_ids, ConnectionEntry, ConnectionView, MAX_RECV_BUFFER_SIZE, OUTBOUND_STREAM_ID_BASE,
};
use crate::datagram::delivered_len;
use crate::registry::{
    table_clear, table_contains, table_entries, table_insert, table_new, table_remove,
    writer_entries, writers_clear, writers_insert, writers_new, writers_remove,
    writers_retain_elsewhere,
};
use crate::ring_buffer::{accepted_len, after_pop, after_push, popped, taken_len};
use crate::status::{ConnectError, TransportError};
use crate::stream_writer::{
    receiver_channel, report_finish, report_write, StreamCommand, StreamWriter,
};
use dashmap::DashMap;
use tokio::sync::mpsc::Receiver;
use vstd::prelude::*;

verus! {

/// Bound of the command queue of every outbound stream.
pub const WRITER_QUEUE_CAPACITY: usize = 50;

/// A transport context as contracts see it.
#[verifier::ext_equal]
pub struct ContextView {
    /// The live connections, by identifier.
    pub connections: Map<u64, ConnectionView>,
    /// The identifier that the next connection gets.
    pub next_connection_id: u64,
    /// The identifier that the next caller-opened stream gets.
    pub next_stream_id: u64,
}

impl ContextView {
    /// Whether the connection is registered.
    pub open spec fn is_connected(self, id: u64) -> bool {
        self.connections.contains_key(id)
    }

    /// This context with one connection's state replaced.
    pub open spec fn with_connection(self, id: u64, connection: ConnectionView) -> ContextView {
        ContextView { connections: self.connections.insert(id, connection), ..self }
    }

    /// This context without one connection.
    pub open spec fn without_connection(self, id: u64) -> ContextView {
        ContextView { connections: self.connections.remove(id), ..self }
    }

    /// This context after one connection's state was changed by `change`;
    /// unchanged when the connection is not registered.
    pub open spec fn update_connection(
        self,
        id: u64,
        change: spec_fn(ConnectionView) -> ConnectionView,
    ) -> ContextView {
        if self.is_connected(id) {
            self.with_connection(id, change(self.connections[id]))
        } else {
            self
        }
    }

    /// Whether a connection can be registered: an identifier is left.
    pub open spec fn can_register(self) -> bool {
        self.next_connection_id < u64::MAX
    }

    /// This context after a connection was registered: it has the next
    /// identifier and the state of a fresh connection.
    pub open spec fn after_register(self) -> ContextView {
        if self.can_register() {
            ContextView {
                connections: self.connections.insert(
                    self.next_connection_id,
                    ConnectionView::fresh(),
                ),
                next_connection_id: (self.next_connection_id + 1) as u64,
                next_stream_id: self.next_stream_id,
            }
        } else {
            self
        }
    }

    /// Whether the caller can open a stream on a connection: the connection
    /// is registered and an identifier is left.
    pub open spec fn can_open(self, id: u64) -> bool {
        self.is_connected(id) && self.next_stream_id < u64::MAX
    }

    /// This context after the caller opened a stream on a connection: the
    /// stream has the next stream identifier.
    pub open spec fn after_open(self, id: u64) -> ContextView {
        if self.can_open(id) {
            ContextView {
                connections: self.connections.insert(
                    id,
                    self.connections[id].after_open(self.next_stream_id),
                ),
                next_connection_id: self.next_connection_id,
                next_stream_id: (self.next_stream_id + 1) as u64,
            }
        } else {
            self
        }
    }

    /// This context after the transport accepted a stream on a connection.
    pub open spec fn after_accept(self, id: u64, stream_id: u64) -> ContextView {
        self.update_connection(id, |c: ConnectionView| c.after_accept(stream_id))
    }

    /// This context after a read of up to `room` bytes from an inbound
    /// stream.
    pub open spec fn after_read(self, id: u64, stream_id: u64, room: nat) -> ContextView {
        self.update_connection(id, |c: ConnectionView| c.after_read(stream_id, room))
    }

    /// This context after `bytes` arrived on an inbound stream.
    pub open spec fn after_arrival(self, id: u64, stream_id: u64, bytes: Seq<u8>) -> ContextView {
        self.update_connection(id, |c: ConnectionView| c.after_arrival(stream_id, bytes))
    }

    /// This context after the caller closed an inbound stream.
    pub open spec fn after_close_stream(self, id: u64, stream_id: u64) -> ContextView {
        self.update_connection(id, |c: ConnectionView| c.after_close_stream(stream_id))
    }

    /// This context after the control stream of a connection was opened.
    pub open spec fn after_attach(self, id: u64) -> ContextView {
        self.update_connection(id, |c: ConnectionView| c.after_attach())
    }

    /// This context after the control stream of a connection ended.
    pub open spec fn after_control_end(self, id: u64) -> ContextView {
        self.update_connection(id, |c: ConnectionView| c.after_control_end())
    }

    /// This context after `bytes` arrived on the control stream of a
    /// connection.
    pub open spec fn after_control_arrival(self, id: u64, bytes: Seq<u8>) -> ContextView {
        self.update_connection(id, |c: ConnectionView| c.after_control_arrival(bytes))
    }

    /// This context after a read of up to `room` control bytes of a
    /// connection.
    pub open spec fn after_control_read(self, id: u64, room: nat) -> ContextView {
        self.update_connection(id, |c: ConnectionView| c.after_control_read(room))
    }

    /// This context after the writer of an outbound stream left the
    /// registry.
    pub open spec fn after_finish(self, id: u64, stream_id: u64) -> ContextView {
        self.update_connection(id, |c: ConnectionView| c.after_finish(stream_id))
    }

    /// This context after a datagram arrived on a connection.
    pub open spec fn after_datagram_arrival(self, id: u64, datagram: Seq<u8>) -> ContextView {
        self.update_connection(id, |c: ConnectionView| c.after_datagram_arrival(datagram))
    }

    /// This context after the oldest received datagram of a connection, if
    /// any, was read.
    pub open spec fn after_datagram_read(self, id: u64) -> ContextView {
        self.update_connection(id, |c: ConnectionView| c.after_datagram_read())
    }

    /// This context after a datagram was offered for sending on a
    /// connection.
    pub open spec fn after_datagram_queued(self, id: u64, datagram: Seq<u8>) -> ContextView {
        self.update_connection(id, |c: ConnectionView| c.after_datagram_queued(datagram))
    }

    /// This context after the oldest datagram to send on a connection, if
    /// any, was taken.
    pub open spec fn after_datagram_taken(self, id: u64) -> ContextView {
        self.update_connection(id, |c: ConnectionView| c.after_datagram_taken())
    }

    /// This context after the transport reported the end of an inbound
    /// stream.
    pub open spec fn after_stream_end(self, id: u64, stream_id: u64) -> ContextView {
        self.update_connection(id, |c: ConnectionView| c.after_stream_end(stream_id))
    }

    /// Whether an inbound stream of a registered connection is active.
    pub open spec fn has_stream(self, id: u64, stream_id: u64) -> bool {
        self.is_connected(id) && self.connections[id].has_stream(stream_id)
    }

    /// The bytes that an active inbound stream has buffered.
    pub open spec fn stream_data(self, id: u64, stream_id: u64) -> Seq<u8>
        recommends
            self.has_stream(id, stream_id),
    {
        self.connections[id].streams[self.connections[id].stream_index(stream_id)].data
    }

    /// Whether an outbound stream of a registered connection is open.
    pub open spec fn has_writer(self, id: u64, stream_id: u64) -> bool {
        self.is_connected(id) && self.connections[id].has_writer(stream_id)
    }

    /// What a close of a connection reports.
    pub open spec fn close_report(self, id: u64) -> Result<(), TransportError> {
        if self.is_connected(id) {
            Ok(())
        } else {
            Err(TransportError::NotFound)
        }
    }

    /// Identifiers in use lie below the allocators, which only move up: no
    /// identifier is handed out twice. Every connection is well-formed.
    pub open spec fn wf(self) -> bool {
        &&& self.next_connection_id >= 1
        &&& self.next_stream_id >= OUTBOUND_STREAM_ID_BASE
        &&& forall|id: u64| #[trigger]
            self.connections.contains_key(id) ==> id < self.next_connection_id
                && self.connections[id].wf()
        &&& forall|id: u64, i: int|
            self.connections.contains_key(id) && 0 <= i < self.connections[id].writers.len()
                ==> #[trigger] self.connections[id].writers[i] < self.next_stream_id
    }

    /// A context without connections that has handed out no identifier yet.
    pub open spec fn initial() -> ContextView {
        ContextView {
            connections: Map::empty(),
            next_connection_id: 1,
            next_stream_id: OUTBOUND_STREAM_ID_BASE,
        }
    }
}

/// The command queue of an outbound stream as contracts see it.
pub struct QueueView {
    /// The channel that the stream's writer submits to.
    pub channel: int,
    /// The largest number of commands that the queue holds.
    pub bound: nat,
}

/// What is left of the queues when those of one connection are taken away.
pub open spec fn queues_elsewhere(queues: Map<(u64, u64), QueueView>, id: u64) -> Map<
    (u64, u64),
    QueueView,
> {
    queues.restrict(Set::new(|key: (u64, u64)| key.0 != id))
}

/// Registry of the live connections and of the writers of their outbound
/// streams, and allocator of connection and stream identifiers.
pub struct TransportContext {
    table: DashMap<u64, ConnectionEntry>,
    writers: DashMap<(u64, u64), StreamWriter>,
    next_connection_id: u64,
    next_stream_id: u64,
}

impl View for TransportContext {
    type V = ContextView;

    closed spec fn view(&self) -> ContextView {
        ContextView {
            connections: Map::new(
                |id: u64| table_entries(self.table).contains_key(id),
                |id: u64| table_entries(self.table)[id]@,
            ),
            next_connection_id: self.next_connection_id,
            next_stream_id: self.next_stream_id,
        }
    }
}

impl TransportContext {
    /// Every entry is well-formed, and so is what the view shows.
    closed spec fn tables_wf(&self) -> bool {
        &&& self@.wf()
        &&& forall|id: u64| #[trigger]
            table_entries(self.table).contains_key(id) ==> table_entries(self.table)[id].wf()
    }

    /// Whether the table of writers holds, for this connection, the writers
    /// of exactly these streams.
    closed spec fn holds_writers(&self, id: u64, streams: Seq<u64>) -> bool {
        forall|stream_id: u64|
            #![trigger writer_entries(self.writers).contains_key((id, stream_id))]
            #![trigger streams.contains(stream_id)]
            writer_entries(self.writers).contains_key((id, stream_id)) <==> streams.contains(
                stream_id,
            )
    }

    /// Whether the table of writers holds, for this connection, the writers
    /// of the outbound streams that its entry lists; none if it has no entry.
    closed spec fn writers_match(&self, id: u64) -> bool {
        self.holds_writers(
            id,
            if table_entries(self.table).contains_key(id) {
                table_entries(self.table)[id]@.writers
            } else {
                Seq::empty()
            },
        )
    }

    /// Every entry is well-formed, what the view shows is well-formed, and
    /// the table of writers holds a writer for each outbound stream that an
    /// entry lists and for nothing else.
    pub closed spec fn wf(&self) -> bool {
        &&& self.tables_wf()
        &&& forall|id: u64| #[trigger] self.writers_match(id)
    }

    /// The command queues of the registered writers, by connection
    /// identifier and stream identifier.
    pub closed spec fn queues(&self) -> Map<(u64, u64), QueueView> {
        Map::new(
            |key: (u64, u64)| writer_entries(self.writers).contains_key(key),
            |key: (u64, u64)|
                QueueView {
                    channel: writer_entries(self.writers)[key].spec_channel(),
                    bound: writer_entries(self.writers)[key].spec_capacity(),
                },
        )
    }

    /// What is well-formed shows a well-formed view.
    pub proof fn lemma_wf_view(&self)
        requires
            self.wf(),
        ensures
            self@.wf(),
    {
    }

    /// There is a queue for each outbound stream that is open on a
    /// registered connection, and for nothing else.
    pub proof fn lemma_queues_match(&self, id: u64, stream_id: u64)
        requires
            self.wf(),
        ensures
            self.queues().contains_key((id, stream_id)) <==> self@.has_writer(id, stream_id),
    {
        assert(self.writers_match(id));
        assert(self@.connections.contains_key(id) == table_entries(self.table).contains_key(id));
    }

    /// A context without connections.
    pub fn new() -> (context: TransportContext)
        ensures
            context.wf(),
            context@ == ContextView::initial(),
            context.queues() == Map::<(u64, u64), QueueView>::empty(),
    {
        let context = TransportContext {
            table: table_new(),
            writers: writers_new(),
            next_connection_id: 1,
            next_stream_id: OUTBOUND_STREAM_ID_BASE,
        };
        assert(context@.connections =~= Map::<u64, ConnectionView>::empty());
        assert(context.queues() =~= Map::<(u64, u64), QueueView>::empty());
        context
    }

    /// Takes the entry of a connection out of the table. The writers of the
    /// connection stay where they are.
    fn take(&mut self, id: u64) -> (entry: Option<ConnectionEntry>)
        requires
            old(self).wf(),
        ensures
            final(self).tables_wf(),
            final(self)@ == old(self)@.without_connection(id),
            final(self).writers == old(self).writers,
            forall|other: u64| other != id ==> #[trigger] final(self).writers_match(other),
            entry is Some <==> old(self)@.is_connected(id),
            entry matches Some(taken) ==> taken.wf() && taken@ == old(self)@.connections[id]
                && final(self).holds_writers(id, taken@.writers),
            entry is None ==> final(self).wf(),
    {
        proof {
            assert(old(self).writers_match(id));
        }
        let entry = table_remove(&mut self.table, id);
        proof {
            assert(self@.connections =~= old(self)@.connections.remove(id));
            assert forall|other: u64| other != id implies #[trigger] self.writers_match(other) by {
                assert(old(self).writers_match(other));
            }
            if entry is None {
                assert(table_entries(self.table) =~= table_entries(old(self).table));
                assert forall|other: u64| #[trigger] self.writers_match(other) by {
                    assert(old(self).writers_match(other));
                }
            }
        }
        entry
    }

    /// The writers of a connection match its entry still when neither the
    /// entry nor the connection's part of the table of writers has changed.
    proof fn lemma_writers_kept(&self, earlier: &TransportContext, id: u64)
        requires
            table_entries(self.table) == table_entries(earlier.table),
            earlier.writers_match(id),
            forall|stream_id: u64| #[trigger]
                writer_entries(self.writers).contains_key((id, stream_id)) == writer_entries(
                    earlier.writers,
                ).contains_key((id, stream_id)),
        ensures
            self.writers_match(id),
    {
    }

    /// Puts the entry of a connection into the table.
    fn put(&mut self, id: u64, entry: ConnectionEntry)
        requires
            old(self).tables_wf(),
            !old(self)@.is_connected(id),
            entry.wf(),
            id < old(self)@.next_connection_id,
            forall|i: int|
                0 <= i < entry@.writers.len() ==> #[trigger] entry@.writers[i] < old(self)@.next_stream_id,
            forall|other: u64| other != id ==> #[trigger] old(self).writers_match(other),
            old(self).holds_writers(id, entry@.writers),
        ensures
            final(self).wf(),
            final(self)@ == old(self)@.with_connection(id, entry@),
            final(self).writers == old(self).writers,
    {
        proof {
            entry.lemma_wf_view();
        }
        let _ = table_insert(&mut self.table, id, entry);
        proof {
            assert(self@.connections =~= old(self)@.connections.insert(id, entry@));
            assert forall|other: u64| #[trigger] self.writers_match(other) by {
                if other != id {
                    assert(old(self).writers_match(other));
                }
            }
        }
    }
}

} // verus!

verus! {

impl TransportContext {
    /// Registers a connection whose handshake succeeded: it gets the next
    /// identifier, which no connection had before, and starts without a
    /// control stream, without data streams and with empty buffers.
    pub fn register_connection(&mut self) -> (outcome: Result<u64, ConnectError>)
        requires
            old(self).wf(),
        ensures
            final(self).wf(),
            final(self).queues() == old(self).queues(),
            final(self)@ == old(self)@.after_register(),
            outcome == if old(self)@.can_register() {
                Ok::<u64, ConnectError>(old(self)@.next_connection_id)
            } else {
                Err::<u64, ConnectError>(ConnectError::Exhausted)
            },
            !old(self)@.is_connected(old(self)@.next_connection_id),
    {
        if self.next_connection_id == u64::MAX {
            return Err(ConnectError::Exhausted);
        }
        let id: u64 = self.next_connection_id;
        self.next_connection_id = id + 1;
        proof {
            assert(self@.connections =~= old(self)@.connections);
            assert(!old(self)@.connections.contains_key(id)) by {
                if old(self)@.connections.contains_key(id) {
                    assert(id < old(self)@.next_connection_id);
                }
            }
            assert forall|other: u64| #[trigger] self.writers_match(other) by {
                assert(old(self).writers_match(other));
            }
            assert(self.writers_match(id));
        }
        let entry = ConnectionEntry::new();
        self.put(id, entry);
        Ok(id)
    }

    /// Ends a connect. A failed handshake is reported as it is and leaves the
    /// registry untouched; a successful one registers the connection.
    pub fn complete_connect(&mut self, handshake: Result<(), ConnectError>) -> (outcome: Result<
        u64,
        ConnectError,
    >)
        requires
            old(self).wf(),
        ensures
            final(self).wf(),
            final(self).queues() == old(self).queues(),
            final(self)@ == if handshake is Ok {
                old(self)@.after_register()
            } else {
                old(self)@
            },
            outcome == match handshake {
                Err(error) => Err::<u64, ConnectError>(error),
                Ok(_) => if old(self)@.can_register() {
                    Ok::<u64, ConnectError>(old(self)@.next_connection_id)
                } else {
                    Err::<u64, ConnectError>(ConnectError::Exhausted)
                },
            },
            !old(self)@.is_connected(old(self)@.next_connection_id),
    {
        match handshake {
            Err(error) => Err(error),
            Ok(_) => self.register_connection(),
        }
    }

    /// Whether the connection is registered, which is to say usable.
    pub fn is_connected(&self, id: u64) -> (connected: bool)
        ensures
            connected == self@.is_connected(id),
    {
        table_contains(&self.table, id)
    }

    /// What a poll of a connection that buffers nothing reports: no data
    /// now, or that the connection is unknown.
    pub fn poll(&self, id: u64) -> (outcome: Result<usize, TransportError>)
        ensures
            outcome == if self@.is_connected(id) {
                Ok::<usize, TransportError>(0)
            } else {
                Err::<usize, TransportError>(TransportError::NotFound)
            },
    {
        if table_contains(&self.table, id) {
            Ok(0)
        } else {
            Err(TransportError::NotFound)
        }
    }

    /// Removes a connection together with every buffer, queue and writer it
    /// owns. Dropping the writers closes their queues, which ends their
    /// tasks. A second close of the same identifier reports that it is
    /// unknown.
    pub fn close(&mut self, id: u64) -> (outcome: Result<(), TransportError>)
        requires
            old(self).wf(),
        ensures
            final(self).wf(),
            final(self).queues() == queues_elsewhere(old(self).queues(), id),
            final(self)@ == old(self)@.without_connection(id),
            outcome == old(self)@.close_report(id),
            !final(self)@.is_connected(id),
    {
        match self.take(id) {
            Some(_) => {
                let ghost taken = *self;
                writers_retain_elsewhere(&mut self.writers, id);
                proof {
                    assert forall|other: u64| #[trigger] self.writers_match(other) by {
                        if other != id {
                            self.lemma_writers_kept(&taken, other);
                        } else {
                            assert(!taken@.connections.contains_key(id));
                            assert(taken@.connections.contains_key(id) == table_entries(
                                taken.table,
                            ).contains_key(id));
                            assert(!table_entries(self.table).contains_key(id));
                            assert forall|stream_id: u64| !(#[trigger] writer_entries(
                                self.writers,
                            ).contains_key((id, stream_id))) by {}
                            assert forall|stream_id: u64| !(#[trigger] Seq::<u64>::empty().contains(
                                stream_id,
                            )) by {}
                        }
                    }
                    assert(self.queues() =~= queues_elsewhere(old(self).queues(), id));
                }
                Ok(())
            },
            None => {
                proof {
                    // An unregistered connection has no writers.
                    assert forall|key: (u64, u64)| #[trigger]
                        old(self).queues().contains_key(key) implies key.0 != id by {
                        old(self).lemma_queues_match(key.0, key.1);
                    }
                    assert(self.queues() =~= queues_elsewhere(old(self).queues(), id));
                }
                Err(TransportError::NotFound)
            },
        }
    }

    /// Removes every connection. The identifier allocators keep their
    /// positions, so that identifiers of closed connections stay unused.
    pub fn cleanup(&mut self)
        requires
            old(self).wf(),
        ensures
            final(self).wf(),
            final(self).queues() == Map::<(u64, u64), QueueView>::empty(),
            final(self)@ == (ContextView { connections: Map::empty(), ..old(self)@ }),
    {
        table_clear(&mut self.table);
        writers_clear(&mut self.writers);
        proof {
            assert(self@.connections =~= Map::<u64, ConnectionView>::empty());
            assert forall|other: u64| #[trigger] self.writers_match(other) by {}
        }
    }

    /// Records that the control stream of a connection has been opened. It
    /// is opened once: a second report is refused.
    pub fn attach_control(&mut self, id: u64) -> (outcome: Result<(), TransportError>)
        requires
            old(self).wf(),
        ensures
            final(self).wf(),
            final(self).queues() == old(self).queues(),
            final(self)@ == old(self)@.after_attach(id),
            outcome == if !old(self)@.is_connected(id) {
                Err::<(), TransportError>(TransportError::NotFound)
            } else if old(self)@.connections[id].control_open {
                Err::<(), TransportError>(TransportError::Conflict)
            } else {
                Ok::<(), TransportError>(())
            },
    {
        match self.take(id) {
            None => {
                assert(self@ =~= old(self)@);
                Err(TransportError::NotFound)
            },
            Some(entry) => {
                let mut entry = entry;
                let outcome = entry.attach_control();
                self.put(id, entry);
                assert(self@ =~= old(self)@.after_attach(id));
                outcome
            },
        }
    }

    /// Whether the control stream of a connection has been opened.
    pub fn control_open(&mut self, id: u64) -> (outcome: Result<bool, TransportError>)
        requires
            old(self).wf(),
        ensures
            final(self).wf(),
            final(self).queues() == old(self).queues(),
            final(self)@ == old(self)@,
            outcome == if old(self)@.is_connected(id) {
                Ok::<bool, TransportError>(old(self)@.connections[id].control_open)
            } else {
                Err::<bool, TransportError>(TransportError::NotFound)
            },
    {
        match self.take(id) {
            None => {
                assert(self@ =~= old(self)@);
                Err(TransportError::NotFound)
            },
            Some(entry) => {
                let open: bool = entry.control_open();
                self.put(id, entry);
                assert(self@ =~= old(self)@);
                Ok(open)
            },
        }
    }

    /// Whether the control stream of a connection will deliver nothing more.
    pub fn control_ended(&mut self, id: u64) -> (outcome: Result<bool, TransportError>)
        requires
            old(self).wf(),
        ensures
            final(self).wf(),
            final(self).queues() == old(self).queues(),
            final(self)@ == old(self)@,
            outcome == if old(self)@.is_connected(id) {
                Ok::<bool, TransportError>(old(self)@.connections[id].control_ended)
            } else {
                Err::<bool, TransportError>(TransportError::NotFound)
            },
    {
        match self.take(id) {
            None => {
                assert(self@ =~= old(self)@);
                Err(TransportError::NotFound)
            },
            Some(entry) => {
                let ended: bool = entry.control_ended();
                self.put(id, entry);
                assert(self@ =~= old(self)@);
                Ok(ended)
            },
        }
    }

    /// Records that the control stream of a connection will deliver nothing
    /// more. The connection stays registered.
    pub fn end_control(&mut self, id: u64) -> (outcome: Result<(), TransportError>)
        requires
            old(self).wf(),
        ensures
            final(self).wf(),
            final(self).queues() == old(self).queues(),
            final(self)@ == old(self)@.after_control_end(id),
            outcome == if old(self)@.is_connected(id) {
                Ok::<(), TransportError>(())
            } else {
                Err::<(), TransportError>(TransportError::NotFound)
            },
    {
        match self.take(id) {
            None => {
                assert(self@ =~= old(self)@);
                Err(TransportError::NotFound)
            },
            Some(entry) => {
                let mut entry = entry;
                entry.end_control();
                self.put(id, entry);
                assert(self@ =~= old(self)@.after_control_end(id));
                Ok(())
            },
        }
    }

    /// Buffers control bytes that arrived on a connection; returns how many
    /// were accepted. Bytes beyond the buffer's capacity are dropped.
    pub fn push_control_data(&mut self, id: u64, bytes: &[u8]) -> (outcome: Result<
        usize,
        TransportError,
    >)
        requires
            old(self).wf(),
        ensures
            final(self).wf(),
            final(self).queues() == old(self).queues(),
            final(self)@ == old(self)@.after_control_arrival(id, bytes@),
            outcome is Ok <==> old(self)@.is_connected(id),
            outcome matches Err(error) ==> error == TransportError::NotFound,
            outcome matches Ok(accepted) ==> accepted == accepted_len(
                old(self)@.connections[id].control.len(),
                MAX_RECV_BUFFER_SIZE as nat,
                bytes@.len(),
            ),
    {
        match self.take(id) {
            None => {
                assert(self@ =~= old(self)@);
                Err(TransportError::NotFound)
            },
            Some(entry) => {
                let mut entry = entry;
                let accepted: usize = entry.push_control(bytes);
                self.put(id, entry);
                assert(self@ =~= old(self)@.after_control_arrival(id, bytes@));
                Ok(accepted)
            },
        }
    }

    /// Moves buffered control bytes of a connection into `dest`, oldest
    /// first; returns how many, 0 when there is no data now.
    pub fn recv_control(&mut self, id: u64, dest: &mut [u8]) -> (outcome: Result<
        usize,
        TransportError,
    >)
        requires
            old(self).wf(),
        ensures
            final(self).wf(),
            final(self).queues() == old(self).queues(),
            final(self)@ == old(self)@.after_control_read(id, old(dest)@.len()),
            final(dest)@.len() == old(dest)@.len(),
            outcome is Ok <==> old(self)@.is_connected(id),
            outcome matches Err(error) ==> error == TransportError::NotFound && final(dest)@
                == old(dest)@,
            outcome matches Ok(read) ==> read == taken_len(
                old(self)@.connections[id].control.len(),
                old(dest)@.len(),
            ) && final(dest)@ == popped(old(self)@.connections[id].control, old(dest)@.len())
                + old(dest)@.skip(read as int),
    {
        match self.take(id) {
            None => {
                assert(self@ =~= old(self)@);
                Err(TransportError::NotFound)
            },
            Some(entry) => {
                let mut entry = entry;
                let read: usize = entry.pop_control(dest);
                self.put(id, entry);
                assert(self@ =~= old(self)@.after_control_read(id, old(dest)@.len()));
                Ok(read)
            },
        }
    }
}

} // verus!

verus! {

impl TransportContext {
    /// Registers a data stream that the transport accepted on a connection:
    /// it joins the active streams with an empty receive buffer. An
    /// identifier that is already active, or that lies in the range of
    /// caller-opened streams, is refused.
    pub fn accept_data_stream(&mut self, id: u64, stream_id: u64) -> (outcome: Result<
        (),
        TransportError,
    >)
        requires
            old(self).wf(),
        ensures
            final(self).wf(),
            final(self).queues() == old(self).queues(),
            final(self)@ == old(self)@.after_accept(id, stream_id),
            outcome == if !old(self)@.is_connected(id) {
                Err::<(), TransportError>(TransportError::NotFound)
            } else if old(self)@.connections[id].admits(stream_id) {
                Ok::<(), TransportError>(())
            } else {
                Err::<(), TransportError>(TransportError::Conflict)
            },
            outcome is Ok ==> final(self)@.has_stream(id, stream_id) && final(self)@.stream_data(
                id,
                stream_id,
            ) == Seq::<u8>::empty(),
    {
        match self.take(id) {
            None => {
                assert(self@ =~= old(self)@);
                Err(TransportError::NotFound)
            },
            Some(entry) => {
                let mut entry = entry;
                let outcome = entry.accept_stream(stream_id);
                self.put(id, entry);
                assert(self@ =~= old(self)@.after_accept(id, stream_id));
                outcome
            },
        }
    }

    /// Buffers bytes that arrived on an inbound data stream; returns how many
    /// were accepted. Bytes beyond the buffer's capacity are dropped.
    pub fn push_stream_data(&mut self, id: u64, stream_id: u64, bytes: &[u8]) -> (outcome: Result<
        usize,
        TransportError,
    >)
        requires
            old(self).wf(),
        ensures
            final(self).wf(),
            final(self).queues() == old(self).queues(),
            final(self)@ == old(self)@.after_arrival(id, stream_id, bytes@),
            outcome is Ok <==> old(self)@.has_stream(id, stream_id),
            outcome matches Err(error) ==> error == TransportError::NotFound,
            outcome matches Ok(accepted) ==> accepted == accepted_len(
                old(self)@.stream_data(id, stream_id).len(),
                MAX_RECV_BUFFER_SIZE as nat,
                bytes@.len(),
            ),
            outcome is Ok ==> final(self)@.has_stream(id, stream_id) && final(self)@.stream_data(
                id,
                stream_id,
            ) == after_push(
                old(self)@.stream_data(id, stream_id),
                MAX_RECV_BUFFER_SIZE as nat,
                bytes@,
            ),
    {
        match self.take(id) {
            None => {
                assert(self@ =~= old(self)@);
                Err(TransportError::NotFound)
            },
            Some(entry) => {
                let mut entry = entry;
                let outcome = entry.push_stream(stream_id, bytes);
                self.put(id, entry);
                assert(self@ =~= old(self)@.after_arrival(id, stream_id, bytes@));
                outcome
            },
        }
    }

    /// Moves buffered bytes of an inbound data stream into `dest`, oldest
    /// first; returns how many, 0 when there is no data now. The stream
    /// stays active whatever was read.
    pub fn recv_data(&mut self, id: u64, stream_id: u64, dest: &mut [u8]) -> (outcome: Result<
        usize,
        TransportError,
    >)
        requires
            old(self).wf(),
        ensures
            final(self).wf(),
            final(self).queues() == old(self).queues(),
            final(self)@ == old(self)@.after_read(id, stream_id, old(dest)@.len()),
            final(dest)@.len() == old(dest)@.len(),
            outcome is Ok <==> old(self)@.has_stream(id, stream_id),
            outcome matches Err(error) ==> error == TransportError::NotFound && final(dest)@
                == old(dest)@,
            outcome matches Ok(read) ==> read == taken_len(
                old(self)@.stream_data(id, stream_id).len(),
                old(dest)@.len(),
            ) && final(dest)@ == popped(old(self)@.stream_data(id, stream_id), old(dest)@.len())
                + old(dest)@.skip(read as int),
            outcome is Ok ==> final(self)@.has_stream(id, stream_id) && final(self)@.stream_data(
                id,
                stream_id,
            ) == after_pop(old(self)@.stream_data(id, stream_id), old(dest)@.len()),
    {
        match self.take(id) {
            None => {
                assert(self@ =~= old(self)@);
                Err(TransportError::NotFound)
            },
            Some(entry) => {
                let mut entry = entry;
                let outcome = entry.pop_stream(stream_id, dest);
                self.put(id, entry);
                assert(self@ =~= old(self)@.after_read(id, stream_id, old(dest)@.len()));
                outcome
            },
        }
    }

    /// Records that the transport reported the end of an inbound data
    /// stream. The stream stays active, with what it has buffered, until the
    /// caller closes it.
    pub fn end_data_stream(&mut self, id: u64, stream_id: u64) -> (outcome: Result<
        (),
        TransportError,
    >)
        requires
            old(self).wf(),
        ensures
            final(self).wf(),
            final(self).queues() == old(self).queues(),
            final(self)@ == old(self)@.after_stream_end(id, stream_id),
            outcome == if old(self)@.has_stream(id, stream_id) {
                Ok::<(), TransportError>(())
            } else {
                Err::<(), TransportError>(TransportError::NotFound)
            },
            outcome is Ok ==> final(self)@.has_stream(id, stream_id) && final(self)@.stream_data(
                id,
                stream_id,
            ) == old(self)@.stream_data(id, stream_id),
    {
        match self.take(id) {
            None => {
                assert(self@ =~= old(self)@);
                Err(TransportError::NotFound)
            },
            Some(entry) => {
                let mut entry = entry;
                let outcome = entry.end_stream(stream_id);
                self.put(id, entry);
                assert(self@ =~= old(self)@.after_stream_end(id, stream_id));
                outcome
            },
        }
    }

    /// Whether the transport reported the end of an inbound data stream.
    pub fn data_stream_ended(&mut self, id: u64, stream_id: u64) -> (outcome: Result<
        bool,
        TransportError,
    >)
        requires
            old(self).wf(),
        ensures
            final(self).wf(),
            final(self).queues() == old(self).queues(),
            final(self)@ == old(self)@,
            outcome == if old(self)@.has_stream(id, stream_id) {
                Ok::<bool, TransportError>(
                    old(self)@.connections[id].streams[old(self)@.connections[id].stream_index(
                        stream_id,
                    )].ended,
                )
            } else {
                Err::<bool, TransportError>(TransportError::NotFound)
            },
    {
        match self.take(id) {
            None => {
                assert(self@ =~= old(self)@);
                Err(TransportError::NotFound)
            },
            Some(entry) => {
                let outcome = entry.stream_ended(stream_id);
                self.put(id, entry);
                assert(self@ =~= old(self)@);
                outcome
            },
        }
    }

    /// Removes an inbound data stream and discards what it has buffered: the
    /// caller's acknowledgement that it has read what it wanted. Only this
    /// takes a stream out of the active streams.
    pub fn close_data_stream(&mut self, id: u64, stream_id: u64) -> (outcome: Result<
        (),
        TransportError,
    >)
        requires
            old(self).wf(),
        ensures
            final(self).wf(),
            final(self).queues() == old(self).queues(),
            final(self)@ == old(self)@.after_close_stream(id, stream_id),
            outcome == if old(self)@.has_stream(id, stream_id) {
                Ok::<(), TransportError>(())
            } else {
                Err::<(), TransportError>(TransportError::NotFound)
            },
            !final(self)@.has_stream(id, stream_id),
    {
        match self.take(id) {
            None => {
                assert(self@ =~= old(self)@);
                Err(TransportError::NotFound)
            },
            Some(entry) => {
                let mut entry = entry;
                let outcome = entry.close_stream(stream_id);
                self.put(id, entry);
                assert(self@ =~= old(self)@.after_close_stream(id, stream_id));
                outcome
            },
        }
    }

    /// The identifiers of the active inbound data streams of a connection in
    /// the order they were accepted, the first `max` of them at most.
    pub fn list_active_data_streams(&mut self, id: u64, max: usize) -> (outcome: Result<
        Vec<u64>,
        TransportError,
    >)
        requires
            old(self).wf(),
        ensures
            final(self).wf(),
            final(self).queues() == old(self).queues(),
            final(self)@ == old(self)@,
            outcome is Ok <==> old(self)@.is_connected(id),
            outcome matches Err(error) ==> error == TransportError::NotFound,
            outcome matches Ok(ids) ==> ids@ == stream_ids(old(self)@.connections[id].streams).take(
                taken_len(old(self)@.connections[id].streams.len(), max as nat) as int,
            ),
    {
        match self.take(id) {
            None => {
                assert(self@ =~= old(self)@);
                Err(TransportError::NotFound)
            },
            Some(entry) => {
                let ids: Vec<u64> = entry.list_streams(max);
                self.put(id, entry);
                assert(self@ =~= old(self)@);
                Ok(ids)
            },
        }
    }
}

} // verus!

verus! {

impl TransportContext {
    /// Opens the submission side of an outbound data stream on a connection.
    /// The stream gets the next stream identifier, which no stream had
    /// before, and a command queue bounded at `WRITER_QUEUE_CAPACITY`.
    /// Returns the identifier and the receiving end of the queue, which
    /// belongs to the task that writes to the transport.
    pub fn open_data_stream(&mut self, id: u64) -> (outcome: Result<
        (u64, Receiver<StreamCommand>),
        TransportError,
    >)
        requires
            old(self).wf(),
        ensures
            final(self).wf(),
            final(self).queues() == match outcome {
                Ok(opened) => old(self).queues().insert(
                    (id, opened.0),
                    (QueueView {
                        channel: receiver_channel(opened.1),
                        bound: WRITER_QUEUE_CAPACITY as nat,
                    }),
                ),
                Err(_) => old(self).queues(),
            },
            final(self)@ == old(self)@.after_open(id),
            outcome is Ok <==> old(self)@.can_open(id),
            outcome matches Err(error) ==> error == if old(self)@.is_connected(id) {
                TransportError::Exhausted
            } else {
                TransportError::NotFound
            },
            outcome matches Ok(opened) ==> opened.0 == old(self)@.next_stream_id && opened.0
                >= OUTBOUND_STREAM_ID_BASE && !old(self)@.connections[id].has_writer(opened.0),
            outcome matches Ok(opened) ==> final(self)@.has_writer(id, opened.0),
    {
        match self.take(id) {
            None => {
                assert(self@ =~= old(self)@);
                Err(TransportError::NotFound)
            },
            Some(entry) => {
                let mut entry = entry;
                if self.next_stream_id == u64::MAX {
                    self.put(id, entry);
                    assert(self@ =~= old(self)@);
                    return Err(TransportError::Exhausted);
                }
                let stream_id: u64 = self.next_stream_id;
                let ghost before = entry@;
                proof {
                    // The identifier is new: those in use lie below it.
                    if before.writers.contains(stream_id) {
                        let k = choose|k: int|
                            0 <= k < before.writers.len() && before.writers[k] == stream_id;
                        assert(old(self)@.connections[id].writers[k] < stream_id);
                    }
                }
                let (writer, receiver) = StreamWriter::new(id, stream_id, WRITER_QUEUE_CAPACITY);
                entry.add_writer(stream_id);
                let ghost taken = *self;
                let _ = writers_insert(&mut self.writers, (id, stream_id), writer);
                self.next_stream_id = stream_id + 1;
                proof {
                    assert(entry@.writers[before.writers.len() as int] == stream_id);
                    assert forall|other: u64| other != id implies #[trigger] self.writers_match(
                        other,
                    ) by {
                        self.lemma_writers_kept(&taken, other);
                    }
                    assert forall|s: u64|
                        writer_entries(self.writers).contains_key((id, s)) <==> entry@.writers.contains(
                            s,
                        ) by {
                        if before.writers.contains(s) {
                            let k = choose|k: int| 0 <= k < before.writers.len() && before.writers[k] == s;
                            assert(entry@.writers[k] == s);
                        }
                        if entry@.writers.contains(s) && s != stream_id {
                            let k = choose|k: int| 0 <= k < entry@.writers.len() && entry@.writers[k] == s;
                            assert(before.writers[k] == s);
                        }
                    }
                }
                self.put(id, entry);
                proof {
                    let connection = old(self)@.connections[id];
                    assert(self@.connections =~= old(self)@.connections.insert(
                        id,
                        connection.after_open(stream_id),
                    ));
                    assert(connection.after_open(stream_id).writers[connection.writers.len() as int]
                        == stream_id);
                }
                Ok((stream_id, receiver))
            },
        }
    }

    /// Queues a write of a copy of `bytes` on an outbound data stream,
    /// without blocking. The report is the byte count when the write was
    /// queued, back-pressure when the queue is full, closed when the
    /// stream's task has ended.
    pub fn write_data_stream(&mut self, id: u64, stream_id: u64, bytes: &[u8]) -> (report: Result<
        usize,
        TransportError,
    >)
        requires
            old(self).wf(),
        ensures
            final(self).wf(),
            final(self).queues() == old(self).queues(),
            final(self)@ == old(self)@,
            !old(self)@.has_writer(id, stream_id) <==> report == Err::<usize, TransportError>(
                TransportError::NotFound,
            ),
            old(self)@.has_writer(id, stream_id) ==> report == Ok::<usize, TransportError>(
                bytes.len(),
            ) || report == Err::<usize, TransportError>(TransportError::QueueFull) || report
                == Err::<usize, TransportError>(TransportError::Closed),
    {
        match self.take(id) {
            None => {
                assert(self@ =~= old(self)@);
                Err(TransportError::NotFound)
            },
            Some(entry) => {
                let ghost taken = *self;
                let ghost held = writer_entries(self.writers);
                let report = if entry.has_writer(stream_id) {
                    match writers_remove(&mut self.writers, (id, stream_id)) {
                        Some(writer) => {
                            let data: Vec<u8> = vstd::slice::slice_to_vec(bytes);
                            let outcome = writer.try_write(data);
                            let _ = writers_insert(&mut self.writers, (id, stream_id), writer);
                            assert(writer_entries(self.writers) =~= held);
                            report_write(outcome, bytes.len())
                        },
                        None => Err(TransportError::NotFound),
                    }
                } else {
                    Err(TransportError::NotFound)
                };
                proof {
                    assert(writer_entries(self.writers) =~= held);
                    assert forall|other: u64| other != id implies #[trigger] self.writers_match(
                        other,
                    ) by {
                        self.lemma_writers_kept(&taken, other);
                    }
                }
                self.put(id, entry);
                assert(self@ =~= old(self)@);
                report
            },
        }
    }

    /// Queues the finish of an outbound data stream, without blocking. Once
    /// the finish is queued, or the stream's task is found to have ended,
    /// the writer leaves the registry and the identifier is unknown from
    /// then on; while the queue is full the writer stays, and the finish can
    /// be tried again.
    pub fn finish_data_stream(&mut self, id: u64, stream_id: u64) -> (report: Result<
        (),
        TransportError,
    >)
        requires
            old(self).wf(),
        ensures
            final(self).wf(),
            final(self).queues() == if report == Err::<(), TransportError>(
                TransportError::QueueFull,
            ) {
                old(self).queues()
            } else {
                old(self).queues().remove((id, stream_id))
            },
            !old(self)@.has_writer(id, stream_id) <==> report == Err::<(), TransportError>(
                TransportError::NotFound,
            ),
            old(self)@.has_writer(id, stream_id) ==> report == Ok::<(), TransportError>(())
                || report == Err::<(), TransportError>(TransportError::QueueFull) || report
                == Err::<(), TransportError>(TransportError::Closed),
            final(self)@ == if report == Err::<(), TransportError>(TransportError::QueueFull) {
                old(self)@
            } else {
                old(self)@.after_finish(id, stream_id)
            },
            report != Err::<(), TransportError>(TransportError::QueueFull) ==> !final(self)@.has_writer(id, stream_id),
    {
        match self.take(id) {
            None => {
                proof {
                    assert(self@ =~= old(self)@);
                    old(self).lemma_queues_match(id, stream_id);
                    assert(self.queues() =~= old(self).queues().remove((id, stream_id)));
                }
                Err(TransportError::NotFound)
            },
            Some(entry) => {
                let mut entry = entry;
                let ghost before = entry@;
                let ghost taken = *self;
                let ghost held = writer_entries(self.writers);
                let report = if entry.has_writer(stream_id) {
                    match writers_remove(&mut self.writers, (id, stream_id)) {
                        Some(writer) => {
                            let outcome = writer.try_finish();
                            let (report, release) = report_finish(outcome);
                            if release {
                                let _ = entry.remove_writer(stream_id);
                            } else {
                                let _ = writers_insert(&mut self.writers, (id, stream_id), writer);
                                assert(writer_entries(self.writers) =~= held);
                            }
                            report
                        },
                        None => Err(TransportError::NotFound),
                    }
                } else {
                    Err(TransportError::NotFound)
                };
                proof {
                    // What is left of the writers was there before.
                    if entry@ != before {
                        let at = before.writers.index_of(stream_id);
                        assert forall|i: int| 0 <= i < entry@.writers.len() implies #[trigger] entry@.writers[i]
                            < self@.next_stream_id by {
                            if i < at {
                                assert(entry@.writers[i] == before.writers[i]);
                            } else {
                                assert(entry@.writers[i] == before.writers[i + 1]);
                            }
                        }
                        assert forall|s: u64|
                            writer_entries(self.writers).contains_key((id, s)) <==> entry@.writers.contains(
                                s,
                            ) by {
                            if s != stream_id {
                                assert(entry@.has_writer(s) == before.has_writer(s));
                            }
                        }
                    }
                    assert forall|other: u64| other != id implies #[trigger] self.writers_match(
                        other,
                    ) by {
                        self.lemma_writers_kept(&taken, other);
                    }
                }
                self.put(id, entry);
                proof {
                    old(self).lemma_queues_match(id, stream_id);
                    assert(self.queues() =~= if report == Err::<(), TransportError>(
                        TransportError::QueueFull,
                    ) {
                        old(self).queues()
                    } else {
                        old(self).queues().remove((id, stream_id))
                    });
                }
                assert(self@ =~= if report == Err::<(), TransportError>(
                    TransportError::QueueFull,
                ) {
                    old(self)@
                } else {
                    old(self)@.after_finish(id, stream_id)
                });
                report
            },
        }
    }

    /// Queues a datagram for sending on a connection, whole. A full queue
    /// rejects it: what was queued earlier stays.
    pub fn send_datagram(&mut self, id: u64, datagram: &[u8]) -> (outcome: Result<
        usize,
        TransportError,
    >)
        requires
            old(self).wf(),
        ensures
            final(self).wf(),
            final(self).queues() == old(self).queues(),
            final(self)@ == old(self)@.after_datagram_queued(id, datagram@),
            outcome == if !old(self)@.is_connected(id) {
                Err::<usize, TransportError>(TransportError::NotFound)
            } else if old(self)@.connections[id].can_queue_datagram() {
                Ok::<usize, TransportError>(datagram.len())
            } else {
                Err::<usize, TransportError>(TransportError::QueueFull)
            },
    {
        match self.take(id) {
            None => {
                assert(self@ =~= old(self)@);
                Err(TransportError::NotFound)
            },
            Some(entry) => {
                let mut entry = entry;
                let outcome = entry.queue_outbound_datagram(datagram);
                self.put(id, entry);
                assert(self@ =~= old(self)@.after_datagram_queued(id, datagram@));
                outcome
            },
        }
    }

    /// Takes the oldest datagram that is queued for sending on a connection.
    pub fn next_outbound_datagram(&mut self, id: u64) -> (outcome: Result<
        Option<Vec<u8>>,
        TransportError,
    >)
        requires
            old(self).wf(),
        ensures
            final(self).wf(),
            final(self).queues() == old(self).queues(),
            final(self)@ == old(self)@.after_datagram_taken(id),
            outcome is Ok <==> old(self)@.is_connected(id),
            outcome matches Err(error) ==> error == TransportError::NotFound,
            outcome matches Ok(taken) ==> (taken is Some <==> old(self)@.connections[id].outbound_datagrams.len() > 0),
            outcome matches Ok(Some(datagram)) ==> datagram@ == old(self)@.connections[id].outbound_datagrams[0],
    {
        match self.take(id) {
            None => {
                assert(self@ =~= old(self)@);
                Err(TransportError::NotFound)
            },
            Some(entry) => {
                let mut entry = entry;
                let taken: Option<Vec<u8>> = entry.take_outbound_datagram();
                self.put(id, entry);
                assert(self@ =~= old(self)@.after_datagram_taken(id));
                Ok(taken)
            },
        }
    }

    /// Queues a datagram that arrived on a connection, whole. A full queue
    /// rejects it and counts the rejection: what arrived earlier stays.
    /// Returns whether the datagram was queued.
    pub fn push_datagram(&mut self, id: u64, datagram: &[u8]) -> (outcome: Result<
        bool,
        TransportError,
    >)
        requires
            old(self).wf(),
        ensures
            final(self).wf(),
            final(self).queues() == old(self).queues(),
            final(self)@ == old(self)@.after_datagram_arrival(id, datagram@),
            outcome == if old(self)@.is_connected(id) {
                Ok::<bool, TransportError>(old(self)@.connections[id].admits_datagram())
            } else {
                Err::<bool, TransportError>(TransportError::NotFound)
            },
    {
        match self.take(id) {
            None => {
                assert(self@ =~= old(self)@);
                Err(TransportError::NotFound)
            },
            Some(entry) => {
                let mut entry = entry;
                let queued: bool = entry.push_inbound_datagram(datagram);
                self.put(id, entry);
                assert(self@ =~= old(self)@.after_datagram_arrival(id, datagram@));
                Ok(queued)
            },
        }
    }

    /// Takes the oldest received datagram of a connection and copies it into
    /// the start of `dest`; bytes that do not fit are discarded. Returns the
    /// number of bytes copied, 0 when no datagram is queued.
    pub fn recv_datagram(&mut self, id: u64, dest: &mut [u8]) -> (outcome: Result<
        usize,
        TransportError,
    >)
        requires
            old(self).wf(),
        ensures
            final(self).wf(),
            final(self).queues() == old(self).queues(),
            final(self)@ == old(self)@.after_datagram_read(id),
            final(dest)@.len() == old(dest)@.len(),
            outcome is Ok <==> old(self)@.is_connected(id),
            outcome matches Err(error) ==> error == TransportError::NotFound && final(dest)@
                == old(dest)@,
            outcome is Ok && old(self)@.connections[id].inbound_datagrams.len() == 0 ==> outcome
                == Ok::<usize, TransportError>(0) && final(dest)@ == old(dest)@,
            outcome is Ok && old(self)@.connections[id].inbound_datagrams.len() > 0 ==> {
                let datagram = old(self)@.connections[id].inbound_datagrams[0];
                let count = delivered_len(datagram.len(), old(dest)@.len());
                &&& outcome == Ok::<usize, TransportError>(count)
                &&& final(dest)@ == datagram.take(count as int) + old(dest)@.skip(count as int)
            },
    {
        match self.take(id) {
            None => {
                assert(self@ =~= old(self)@);
                Err(TransportError::NotFound)
            },
            Some(entry) => {
                let mut entry = entry;
                let copied: Option<usize> = entry.pop_inbound_datagram(dest);
                self.put(id, entry);
                assert(self@ =~= old(self)@.after_datagram_read(id));
                match copied {
                    Some(count) => Ok(count),
                    None => Ok(0),
                }
            },
        }
    }

    /// How many datagrams that arrived on a connection were rejected because
    /// its queue was full.
    pub fn dropped_datagrams(&mut self, id: u64) -> (outcome: Result<u64, TransportError>)
        requires
            old(self).wf(),
        ensures
            final(self).wf(),
            final(self).queues() == old(self).queues(),
            final(self)@ == old(self)@,
            outcome is Ok <==> old(self)@.is_connected(id),
            outcome matches Err(error) ==> error == TransportError::NotFound,
            outcome matches Ok(count) ==> count == old(self)@.connections[id].dropped_datagrams,
    {
        match self.take(id) {
            None => {
                assert(self@ =~= old(self)@);
                Err(TransportError::NotFound)
            },
            Some(entry) => {
                let count: u64 = entry.dropped_datagrams();
                self.put(id, entry);
                assert(self@ =~= old(self)@);
                Ok(count)
            },
        }
    }
}

} // verus!
