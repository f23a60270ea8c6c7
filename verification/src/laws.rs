//! Laws of the registry: what holds of every well-formed context whatever
//! operations were performed on it. They are stated over the views and the
//! view changes that the contracts of the operations use.

use crate::connection::{
    lemma_accept, lemma_open, lemma_stream_index, stream_ids, ConnectionView,
    MAX_RECV_BUFFER_SIZE, OUTBOUND_STREAM_ID_BASE,
};
use crate::context::ContextView;
use crate::control::{control_send_decision, ControlSendAction};
use crate::ring_buffer::{after_pop, lemma_partial_reads_concatenate, popped, taken_len};
use crate::status::TransportError;
use crate::tasks::{accept_action, AcceptAction, AcceptEvent};
use vstd::prelude::*;

verus! {

/// The identifiers of accepted streams and of caller-opened streams come
/// from disjoint ranges: no identifier names both an inbound and an outbound
/// stream of a connection.
pub proof fn lemma_identifier_ranges_disjoint(connection: ConnectionView, stream_id: u64)
    requires
        connection.wf(),
    ensures
        connection.has_stream(stream_id) ==> stream_id < OUTBOUND_STREAM_ID_BASE,
        connection.has_writer(stream_id) ==> stream_id >= OUTBOUND_STREAM_ID_BASE,
        !(connection.has_stream(stream_id) && connection.has_writer(stream_id)),
{
    let ids = stream_ids(connection.streams);
    if ids.contains(stream_id) {
        let i = choose|i: int| 0 <= i < ids.len() && ids[i] == stream_id;
        assert(connection.streams[i].id == stream_id);
    }
    if connection.writers.contains(stream_id) {
        let j = choose|j: int| 0 <= j < connection.writers.len() && connection.writers[j]
            == stream_id;
        assert(connection.writers[j] >= OUTBOUND_STREAM_ID_BASE);
    }
}

/// The context after the transport accepted streams on a connection one
/// after the other, under these identifiers.
pub open spec fn after_accepts(view: ContextView, id: u64, accepted: Seq<u64>) -> ContextView
    decreases accepted.len(),
{
    if accepted.len() == 0 {
        view
    } else {
        after_accepts(view, id, accepted.drop_last()).after_accept(id, accepted.last())
    }
}

/// The context after the caller opened `count` streams on a connection one
/// after the other.
pub open spec fn after_opens(view: ContextView, id: u64, count: nat) -> ContextView
    decreases count,
{
    if count == 0 {
        view
    } else {
        after_opens(view, id, (count - 1) as nat).after_open(id)
    }
}

/// The `count` identifiers that the allocator hands out from `first` on.
pub open spec fn allocated_ids(first: u64, count: nat) -> Seq<u64> {
    Seq::new(count, |k: int| (first + k) as u64)
}

/// Whether these are identifiers as a transport assigns them: each below
/// `OUTBOUND_STREAM_ID_BASE`, none twice.
pub open spec fn transport_assigned(accepted: Seq<u64>) -> bool {
    &&& forall|k: int| 0 <= k < accepted.len() ==> #[trigger] accepted[k] < OUTBOUND_STREAM_ID_BASE
    &&& forall|k: int, l: int|
        0 <= k < l < accepted.len() ==> #[trigger] accepted[k] != #[trigger] accepted[l]
}

/// On a connection without active streams, every stream that the transport
/// accepts is admitted, however many there are, and they become the active
/// streams in the order accepted. Nothing else changes.
pub proof fn lemma_accepts_in_sequence(view: ContextView, id: u64, accepted: Seq<u64>)
    requires
        view.wf(),
        view.is_connected(id),
        view.connections[id].streams.len() == 0,
        transport_assigned(accepted),
    ensures
        after_accepts(view, id, accepted).wf(),
        after_accepts(view, id, accepted).is_connected(id),
        stream_ids(after_accepts(view, id, accepted).connections[id].streams) == accepted,
        after_accepts(view, id, accepted).connections[id].writers == view.connections[id].writers,
        after_accepts(view, id, accepted).next_stream_id == view.next_stream_id,
        after_accepts(view, id, accepted).next_connection_id == view.next_connection_id,
        after_accepts(view, id, accepted).connections.dom() == view.connections.dom(),
    decreases accepted.len(),
{
    if accepted.len() == 0 {
        assert(stream_ids(view.connections[id].streams) =~= accepted);
    } else {
        let earlier = accepted.drop_last();
        let stream_id = accepted.last();
        let before = after_accepts(view, id, earlier);
        lemma_accepts_in_sequence(view, id, earlier);
        let connection = before.connections[id];
        let ids = stream_ids(connection.streams);
        if ids.contains(stream_id) {
            let k = choose|k: int| 0 <= k < ids.len() && ids[k] == stream_id;
            assert(accepted[k] == earlier[k]);
            assert(accepted[k] != accepted[accepted.len() - 1]);
        }
        assert(connection.admits(stream_id));
        lemma_accept(connection, stream_id);
        let after = before.after_accept(id, stream_id);
        assert(after.connections[id] == connection.after_accept(stream_id));
        assert(stream_ids(after.connections[id].streams) =~= accepted);
        assert(after.connections.dom() =~= view.connections.dom());
        assert forall|other: u64, i: int|
            after.connections.contains_key(other) && 0 <= i
                < after.connections[other].writers.len() implies #[trigger] after.connections[other].writers[i]
            < after.next_stream_id by {
            if other != id {
                assert(after.connections[other] == before.connections[other]);
            }
            assert(before.connections[other].writers[i] < before.next_stream_id);
        }
    }
}

/// The first `count` streams that the caller opens on a connection get the
/// next `count` identifiers of the allocator, in order, for as long as
/// identifiers are left. Nothing else changes.
pub proof fn lemma_opens_in_sequence(view: ContextView, id: u64, count: nat)
    requires
        view.wf(),
        view.is_connected(id),
        view.next_stream_id + count <= u64::MAX,
    ensures
        after_opens(view, id, count).wf(),
        after_opens(view, id, count).is_connected(id),
        after_opens(view, id, count).connections[id].writers == view.connections[id].writers
            + allocated_ids(view.next_stream_id, count),
        after_opens(view, id, count).connections[id].streams == view.connections[id].streams,
        after_opens(view, id, count).next_stream_id == view.next_stream_id + count,
        after_opens(view, id, count).next_connection_id == view.next_connection_id,
        after_opens(view, id, count).connections.dom() == view.connections.dom(),
    decreases count,
{
    if count == 0 {
        assert(view.connections[id].writers + allocated_ids(view.next_stream_id, 0)
            =~= view.connections[id].writers);
    } else {
        let before = after_opens(view, id, (count - 1) as nat);
        lemma_opens_in_sequence(view, id, (count - 1) as nat);
        let stream_id = before.next_stream_id;
        let connection = before.connections[id];
        if connection.writers.contains(stream_id) {
            let k = choose|k: int| 0 <= k < connection.writers.len() && connection.writers[k]
                == stream_id;
            assert(before.connections[id].writers[k] < before.next_stream_id);
        }
        lemma_open(connection, stream_id);
        let after = before.after_open(id);
        assert(after.connections[id] == connection.after_open(stream_id));
        assert(after.connections[id].writers =~= view.connections[id].writers + allocated_ids(
            view.next_stream_id,
            count,
        ));
        assert(after.connections.dom() =~= view.connections.dom());
        assert forall|other: u64, i: int|
            after.connections.contains_key(other) && 0 <= i
                < after.connections[other].writers.len() implies #[trigger] after.connections[other].writers[i]
            < after.next_stream_id by {
            if other != id {
                assert(after.connections[other] == before.connections[other]);
                assert(before.connections[other].writers[i] < before.next_stream_id);
            } else if i < connection.writers.len() {
                assert(before.connections[id].writers[i] < before.next_stream_id);
            }
        }
    }
}

/// However many streams the transport accepts on a fresh connection and
/// however many the caller opens, all are admitted, and the identifiers of
/// the ones never collide with those of the others.
pub proof fn lemma_stream_identifiers_never_collide(
    view: ContextView,
    id: u64,
    accepted: Seq<u64>,
    opened: nat,
)
    requires
        view.wf(),
        view.is_connected(id),
        view.connections[id].streams.len() == 0,
        transport_assigned(accepted),
        view.next_stream_id + opened <= u64::MAX,
    ensures
        ({
            let after = after_opens(after_accepts(view, id, accepted), id, opened);
            let inbound = stream_ids(after.connections[id].streams);
            let outbound = after.connections[id].writers;
            &&& after.wf()
            &&& inbound == accepted
            &&& outbound == view.connections[id].writers + allocated_ids(
                view.next_stream_id,
                opened,
            )
            &&& forall|i: int, j: int|
                0 <= i < inbound.len() && 0 <= j < outbound.len() ==> inbound[i] != outbound[j]
        }),
{
    lemma_accepts_in_sequence(view, id, accepted);
    let middle = after_accepts(view, id, accepted);
    lemma_opens_in_sequence(middle, id, opened);
    let after = after_opens(middle, id, opened);
    let inbound = stream_ids(after.connections[id].streams);
    let outbound = after.connections[id].writers;
    assert forall|i: int, j: int|
        0 <= i < inbound.len() && 0 <= j < outbound.len() implies inbound[i] != outbound[j] by {
        assert(after.connections[id].streams[i].id < OUTBOUND_STREAM_ID_BASE);
        assert(after.connections[id].writers[j] >= OUTBOUND_STREAM_ID_BASE);
    }
}

/// After a close the identifier is unknown: a second close reports so and
/// changes nothing, every later operation on the identifier finds no
/// connection and leaves the context as it is, and no other connection is
/// touched.
pub proof fn lemma_close_forgets(
    view: ContextView,
    id: u64,
    stream_id: u64,
    bytes: Seq<u8>,
    room: nat,
    retries: u32,
    event: AcceptEvent,
)
    requires
        view.wf(),
    ensures
        view.is_connected(id) ==> view.close_report(id) == Ok::<(), TransportError>(()),
        view.without_connection(id).wf(),
        !view.without_connection(id).is_connected(id),
        view.without_connection(id).close_report(id) == Err::<(), TransportError>(
            TransportError::NotFound,
        ),
        view.without_connection(id).without_connection(id) == view.without_connection(id),
        view.without_connection(id).after_read(id, stream_id, room) == view.without_connection(
            id,
        ),
        view.without_connection(id).after_arrival(id, stream_id, bytes) == view.without_connection(
            id,
        ),
        view.without_connection(id).after_accept(id, stream_id) == view.without_connection(id),
        view.without_connection(id).after_close_stream(id, stream_id) == view.without_connection(
            id,
        ),
        view.without_connection(id).after_open(id) == view.without_connection(id),
        control_send_decision(None, retries) == ControlSendAction::NotFound,
        accept_action(None, event) == AcceptAction::Stop,
        forall|other: u64|
            other != id ==> view.without_connection(id).is_connected(other) == view.is_connected(
                other,
            ) && (view.is_connected(other) ==> #[trigger] view.without_connection(
                id,
            ).connections[other] == view.connections[other]),
{
    let after = view.without_connection(id);
    assert(after.without_connection(id).connections =~= after.connections);
    assert forall|other: u64, i: int|
        after.connections.contains_key(other) && 0 <= i
            < after.connections[other].writers.len() implies #[trigger] after.connections[other].writers[i]
        < after.next_stream_id by {
        assert(view.connections[other].writers[i] < view.next_stream_id);
    }
}

/// A connection that is registered after another was closed gets an
/// identifier that the closed one never had, and starts fresh: nothing of a
/// closed connection is ever seen again under a new identifier.
pub proof fn lemma_identifier_not_reused(view: ContextView, id: u64)
    requires
        view.wf(),
        view.is_connected(id),
        view.can_register(),
    ensures
        view.without_connection(id).after_register().wf(),
        !view.without_connection(id).after_register().is_connected(id),
        view.without_connection(id).after_register().is_connected(view.next_connection_id),
        view.without_connection(id).after_register().connections[view.next_connection_id]
            == ConnectionView::fresh(),
        view.next_connection_id > id,
{
    let closed = view.without_connection(id);
    let after = closed.after_register();
    assert(ConnectionView::fresh().wf());
    assert forall|other: u64, i: int|
        after.connections.contains_key(other) && 0 <= i
            < after.connections[other].writers.len() implies #[trigger] after.connections[other].writers[i]
        < after.next_stream_id by {
        if other != view.next_connection_id {
            assert(view.connections[other].writers[i] < view.next_stream_id);
        }
    }
}

/// Reading an inbound stream in pieces hands out what it has buffered in the
/// order it arrived: two reads in a row hand out what one read with the
/// combined room hands out, and leave behind what that read leaves behind.
/// A read never takes the stream out of the active streams, and a read of a
/// drained stream hands out nothing and changes nothing.
pub proof fn lemma_reads_drain_in_order(
    connection: ConnectionView,
    stream_id: u64,
    room_a: nat,
    room_b: nat,
)
    requires
        connection.wf(),
        connection.has_stream(stream_id),
    ensures
        ({
            let data = connection.streams[connection.stream_index(stream_id)].data;
            let once = connection.after_read(stream_id, room_a);
            let twice = once.after_read(stream_id, room_b);
            &&& once.wf()
            &&& once.has_stream(stream_id)
            &&& stream_ids(once.streams) == stream_ids(connection.streams)
            &&& once.streams[once.stream_index(stream_id)].data == after_pop(data, room_a)
            &&& twice == connection.after_read(stream_id, room_a + room_b)
            &&& popped(data, room_a) + popped(after_pop(data, room_a), room_b) == popped(
                data,
                room_a + room_b,
            )
            &&& data.len() == 0 ==> taken_len(data.len(), room_a) == 0 && once == connection
        }),
{
    let i = connection.stream_index(stream_id);
    let ids = stream_ids(connection.streams);
    assert(0 <= i < ids.len() && ids[i] == stream_id);
    let data = connection.streams[i].data;
    let once = connection.after_read(stream_id, room_a);
    assert(stream_ids(once.streams) =~= ids);
    assert forall|a: int, b: int| 0 <= a < b < once.streams.len() implies (
    #[trigger] once.streams[a]).id != (#[trigger] once.streams[b]).id by {
        assert(connection.streams[a].id != connection.streams[b].id);
    }
    assert(once.wf());
    assert(once.streams[i].id == stream_id);
    lemma_stream_index(once, i);
    lemma_partial_reads_concatenate(data, room_a, room_b);
    let twice = once.after_read(stream_id, room_b);
    let direct = connection.after_read(stream_id, room_a + room_b);
    assert(twice.streams =~= direct.streams);
    if data.len() == 0 {
        assert(after_pop(data, room_a) =~= data);
        assert(once.streams =~= connection.streams);
    }
}

/// What arrived on a drained inbound stream, as far as it fits the receive
/// buffer, is what a read that has room for it hands out, byte for byte.
pub proof fn lemma_arrival_is_read_back(connection: ConnectionView, stream_id: u64, bytes: Seq<u8>)
    requires
        connection.wf(),
        connection.has_stream(stream_id),
        connection.streams[connection.stream_index(stream_id)].data.len() == 0,
        bytes.len() <= MAX_RECV_BUFFER_SIZE,
    ensures
        ({
            let arrived = connection.after_arrival(stream_id, bytes);
            &&& arrived.has_stream(stream_id)
            &&& arrived.streams[arrived.stream_index(stream_id)].data == bytes
            &&& popped(bytes, bytes.len()) == bytes
            &&& after_pop(bytes, bytes.len()) == Seq::<u8>::empty()
        }),
{
    let i = connection.stream_index(stream_id);
    let ids = stream_ids(connection.streams);
    assert(0 <= i < ids.len() && ids[i] == stream_id);
    let arrived = connection.after_arrival(stream_id, bytes);
    assert(stream_ids(arrived.streams) =~= ids);
    assert(bytes.take(bytes.len() as int) =~= bytes);
    assert(arrived.streams[i].data =~= bytes);
    assert(bytes.skip(bytes.len() as int) =~= Seq::<u8>::empty());
    let found = stream_ids(arrived.streams).index_of(stream_id);
    assert(0 <= found < ids.len() && ids[found] == stream_id);
    if found != i {
        if found < i {
            assert(connection.streams[found].id != connection.streams[i].id);
        } else {
            assert(connection.streams[i].id != connection.streams[found].id);
        }
    }
}

/// Only its close takes an inbound stream out of the active streams: the
/// close removes exactly that stream, and neither a read, nor an arrival,
/// nor the accept of another stream, nor the opening of an outbound stream
/// removes any.
pub proof fn lemma_only_close_removes(
    connection: ConnectionView,
    stream_id: u64,
    other: u64,
    bytes: Seq<u8>,
    room: nat,
)
    requires
        connection.wf(),
        connection.has_stream(stream_id),
    ensures
        !connection.after_close_stream(stream_id).has_stream(stream_id),
        other != stream_id ==> connection.after_close_stream(stream_id).has_stream(other)
            == connection.has_stream(other),
        connection.after_close_stream(other).has_stream(stream_id) == (other != stream_id),
        connection.after_read(other, room).has_stream(stream_id),
        connection.after_arrival(other, bytes).has_stream(stream_id),
        connection.after_accept(other).has_stream(stream_id),
        connection.after_open(other).has_stream(stream_id),
{
    let ids = stream_ids(connection.streams);
    let i = connection.stream_index(stream_id);
    assert(0 <= i < ids.len() && ids[i] == stream_id);
    lemma_removed_ids(connection, stream_id);
    if connection.has_stream(other) {
        lemma_removed_ids(connection, other);
        let j = connection.stream_index(other);
        assert(0 <= j < ids.len() && ids[j] == other);
        assert(stream_ids(connection.after_read(other, room).streams) =~= ids);
        assert(stream_ids(connection.after_arrival(other, bytes).streams) =~= ids);
    }
    if connection.admits(other) {
        assert(stream_ids(connection.after_accept(other).streams) =~= ids.push(other));
        assert(ids.push(other)[i] == stream_id);
    }
}

/// The identifiers that stay active when an inbound stream is closed are the
/// others, in their order.
proof fn lemma_removed_ids(connection: ConnectionView, stream_id: u64)
    requires
        connection.wf(),
        connection.has_stream(stream_id),
    ensures
        stream_ids(connection.after_close_stream(stream_id).streams) == stream_ids(
            connection.streams,
        ).remove(connection.stream_index(stream_id)),
        !connection.after_close_stream(stream_id).has_stream(stream_id),
        forall|other: u64|
            other != stream_id ==> #[trigger] connection.after_close_stream(stream_id).has_stream(
                other,
            ) == connection.has_stream(other),
{
    let ids = stream_ids(connection.streams);
    let i = connection.stream_index(stream_id);
    assert(0 <= i < ids.len() && ids[i] == stream_id);
    let after = stream_ids(connection.after_close_stream(stream_id).streams);
    assert(after =~= ids.remove(i));
    if after.contains(stream_id) {
        let k = choose|k: int| 0 <= k < after.len() && after[k] == stream_id;
        if k < i {
            assert(connection.streams[k].id != connection.streams[i].id);
        } else {
            assert(connection.streams[i].id != connection.streams[k + 1].id);
        }
    }
    assert forall|other: u64| other != stream_id implies #[trigger] connection.after_close_stream(
        stream_id,
    ).has_stream(other) == connection.has_stream(other) by {
        if ids.contains(other) {
            let k = choose|k: int| 0 <= k < ids.len() && ids[k] == other;
            if k < i {
                assert(after[k] == other);
            } else {
                assert(after[k - 1] == other);
            }
        }
        if after.contains(other) {
            let k = choose|k: int| 0 <= k < after.len() && after[k] == other;
            if k < i {
                assert(ids[k] == other);
            } else {
                assert(ids[k + 1] == other);
            }
        }
    }
}

} // verus!
