//! Decisions of the background tasks of a connection: the task that accepts
//! inbound streams, the tasks that read them, the task that reads the
//! control stream and the task that accepts datagrams.
//!
//! A task performs one transport operation, hands its outcome to the step
//! function here and does what the returned action says. No task removes a
//! connection: that is left to an explicit close.

use crate::connection::{ConnectionView, MAX_RECV_BUFFER_SIZE};
use crate::context::TransportContext;
use crate::ring_buffer::accepted_len;
use crate::status::TransportError;
use vstd::prelude::*;
use vstd::slice::slice_subrange;

verus! {

/// Outcome of one read on a stream into a task's read buffer.
#[derive(Clone, Copy, PartialEq, Eq, Debug, Structural)]
pub enum ReadEvent {
    /// This many bytes were read into the start of the buffer.
    Data(usize),
    /// The peer finished the stream.
    End,
    /// The read failed.
    Failed,
}

/// What a reading task does after a read.
#[derive(Clone, Copy, PartialEq, Eq, Debug, Structural)]
pub enum ReaderAction {
    /// Read again.
    Continue,
    /// End the task.
    Stop,
}

/// What one step of a task that fills a receive buffer came to.
#[derive(Clone, Copy, PartialEq, Eq, Debug, Structural)]
pub struct ReadStep {
    /// What the task does next.
    pub action: ReaderAction,
    /// How many of the bytes read did not fit the buffer and were dropped.
    pub dropped: usize,
}

/// Receiver of the bytes that arrive on streams.
pub trait StreamDataCallback: Send + Sync {
    /// Called with each chunk that was read from a stream, in order.
    fn on_stream_data(&self, session_id: u64, stream_id: u64, data: &[u8]);
}

/// The bytes that a read delivered: the leading bytes of the read buffer for
/// a read of data that fits the buffer, nothing otherwise.
pub open spec fn chunk_of(buffer: Seq<u8>, event: ReadEvent) -> Option<Seq<u8>> {
    match event {
        ReadEvent::Data(len) => if len <= buffer.len() {
            Some(buffer.take(len as int))
        } else {
            None
        },
        _ => None,
    }
}

/// The part of the read buffer that a read filled.
pub fn read_chunk<'a>(buffer: &'a [u8], event: ReadEvent) -> (chunk: Option<&'a [u8]>)
    ensures
        chunk is Some <==> chunk_of(buffer@, event) is Some,
        chunk matches Some(bytes) ==> bytes@ == chunk_of(buffer@, event)->Some_0,
{
    match event {
        ReadEvent::Data(len) => {
            if len <= buffer.len() {
                Some(slice_subrange(buffer, 0, len))
            } else {
                None
            }
        },
        _ => None,
    }
}

/// What a reading task does after a read: it goes on for as long as reads
/// deliver data, and stops at the end of the stream or on a failure.
pub open spec fn reader_action(buffer: Seq<u8>, event: ReadEvent) -> ReaderAction {
    if chunk_of(buffer, event) is Some {
        ReaderAction::Continue
    } else {
        ReaderAction::Stop
    }
}

/// One step of a task that hands what it reads to a callback: the callback
/// gets exactly the bytes that the read delivered.
pub fn deliver<C: StreamDataCallback + ?Sized>(
    callback: &C,
    session_id: u64,
    stream_id: u64,
    buffer: &[u8],
    event: ReadEvent,
) -> (action: ReaderAction)
    ensures
        action == reader_action(buffer@, event),
{
    match read_chunk(buffer, event) {
        Some(chunk) => {
            callback.on_stream_data(session_id, stream_id, chunk);
            ReaderAction::Continue
        },
        None => ReaderAction::Stop,
    }
}

/// Number of bytes of a chunk that a receive buffer holding `held` bytes
/// drops.
pub open spec fn dropped_len(held: nat, chunk: nat) -> nat {
    (chunk - accepted_len(held, MAX_RECV_BUFFER_SIZE as nat, chunk)) as nat
}

/// What a step of a task that fills a receive buffer comes to, given whether
/// the buffer is still registered and how much it holds.
pub open spec fn read_step(held: Option<nat>, buffer: Seq<u8>, event: ReadEvent) -> ReadStep {
    match (held, chunk_of(buffer, event)) {
        (Some(len), Some(chunk)) => ReadStep {
            action: ReaderAction::Continue,
            dropped: dropped_len(len, chunk.len()) as usize,
        },
        _ => ReadStep { action: ReaderAction::Stop, dropped: 0 },
    }
}

/// One step of the task that reads the control stream of a connection: data
/// goes into the connection's control buffer, as much of it as fits; the end
/// of the stream or a failure is recorded and ends the task, and so does the
/// disappearance of the connection. The connection itself stays registered.
pub fn on_control_read(context: &mut TransportContext, id: u64, buffer: &[u8], event: ReadEvent) -> (step:
    ReadStep)
    requires
        old(context).wf(),
    ensures
        final(context).wf(),
        final(context).queues() == old(context).queues(),
        final(context)@ == match chunk_of(buffer@, event) {
            Some(chunk) => old(context)@.after_control_arrival(id, chunk),
            None => old(context)@.after_control_end(id),
        },
        step == read_step(
            if old(context)@.is_connected(id) {
                Some(old(context)@.connections[id].control.len())
            } else {
                None
            },
            buffer@,
            event,
        ),
{
    match read_chunk(buffer, event) {
        Some(chunk) => {
            match context.push_control_data(id, chunk) {
                Ok(accepted) => ReadStep {
                    action: ReaderAction::Continue,
                    dropped: chunk.len() - accepted,
                },
                Err(_) => ReadStep { action: ReaderAction::Stop, dropped: 0 },
            }
        },
        None => {
            let _ = context.end_control(id);
            ReadStep { action: ReaderAction::Stop, dropped: 0 }
        },
    }
}

/// One step of a task that reads an inbound data stream: data goes into the
/// stream's receive buffer, as much of it as fits; the end of the stream or
/// a failure is recorded and ends the task, and so does the disappearance of
/// the stream or of its connection. The stream stays registered, with what
/// it has buffered, until the caller closes it.
pub fn on_stream_read(
    context: &mut TransportContext,
    id: u64,
    stream_id: u64,
    buffer: &[u8],
    event: ReadEvent,
) -> (step: ReadStep)
    requires
        old(context).wf(),
    ensures
        final(context).wf(),
        final(context).queues() == old(context).queues(),
        final(context)@ == match chunk_of(buffer@, event) {
            Some(chunk) => old(context)@.after_arrival(id, stream_id, chunk),
            None => old(context)@.after_stream_end(id, stream_id),
        },
        step == read_step(
            if old(context)@.has_stream(id, stream_id) {
                Some(old(context)@.stream_data(id, stream_id).len())
            } else {
                None
            },
            buffer@,
            event,
        ),
{
    match read_chunk(buffer, event) {
        Some(chunk) => {
            match context.push_stream_data(id, stream_id, chunk) {
                Ok(accepted) => ReadStep {
                    action: ReaderAction::Continue,
                    dropped: chunk.len() - accepted,
                },
                Err(_) => ReadStep { action: ReaderAction::Stop, dropped: 0 },
            }
        },
        None => {
            let _ = context.end_data_stream(id, stream_id);
            ReadStep { action: ReaderAction::Stop, dropped: 0 }
        },
    }
}

/// Outcome of one accept of an inbound stream.
#[derive(Clone, Copy, PartialEq, Eq, Debug, Structural)]
pub enum AcceptEvent {
    /// The transport accepted a unidirectional stream with this identifier.
    Unidirectional(u64),
    /// The transport accepted a bidirectional stream with this identifier.
    Bidirectional(u64),
    /// The accept failed: the connection is taken to have failed.
    Failed,
}

/// What the accepting task does after an accept.
#[derive(Clone, Copy, PartialEq, Eq, Debug, Structural)]
pub enum AcceptAction {
    /// The stream was registered: start a task that reads it, then accept
    /// again.
    Read(u64),
    /// The stream was refused: drop it, then accept again.
    Refuse(u64),
    /// End the task.
    Stop,
}

impl AcceptEvent {
    /// The identifier of the stream that was accepted, if one was.
    pub open spec fn stream(self) -> Option<u64> {
        match self {
            AcceptEvent::Unidirectional(stream_id) => Some(stream_id),
            AcceptEvent::Bidirectional(stream_id) => Some(stream_id),
            AcceptEvent::Failed => None,
        }
    }
}

/// What the accepting task of a connection does after an accept, given
/// whether the connection is registered and which streams it has.
pub open spec fn accept_action(connection: Option<ConnectionView>, event: AcceptEvent) -> AcceptAction {
    match (connection, event.stream()) {
        (Some(state), Some(stream_id)) => if state.admits(stream_id) {
            AcceptAction::Read(stream_id)
        } else {
            AcceptAction::Refuse(stream_id)
        },
        _ => AcceptAction::Stop,
    }
}

/// One step of the task that accepts the inbound streams of a connection. An
/// accepted stream is registered among the active streams, with an empty
/// receive buffer, before the task that reads it is started. A failed accept
/// ends the task, and so does the disappearance of the connection.
pub fn on_accept(context: &mut TransportContext, id: u64, event: AcceptEvent) -> (action:
    AcceptAction)
    requires
        old(context).wf(),
    ensures
        final(context).wf(),
        final(context).queues() == old(context).queues(),
        final(context)@ == match event.stream() {
            Some(stream_id) => old(context)@.after_accept(id, stream_id),
            None => old(context)@,
        },
        action == accept_action(
            if old(context)@.is_connected(id) {
                Some(old(context)@.connections[id])
            } else {
                None
            },
            event,
        ),
{
    let accepted: Option<u64> = match event {
        AcceptEvent::Unidirectional(stream_id) => Some(stream_id),
        AcceptEvent::Bidirectional(stream_id) => Some(stream_id),
        AcceptEvent::Failed => None,
    };
    match accepted {
        None => AcceptAction::Stop,
        Some(stream_id) => {
            match context.accept_data_stream(id, stream_id) {
                Ok(_) => AcceptAction::Read(stream_id),
                Err(TransportError::NotFound) => AcceptAction::Stop,
                Err(_) => AcceptAction::Refuse(stream_id),
            }
        },
    }
}

/// Outcome of one accept of a datagram.
#[derive(Debug)]
pub enum DatagramEvent {
    /// This datagram arrived.
    Received(Vec<u8>),
    /// The accept failed: the connection is taken to have failed.
    Failed,
}

/// One step of the task that accepts the datagrams of a connection. A
/// datagram is queued whole, or rejected and counted when the queue is full;
/// either way the task goes on. A failed accept ends the task, and so does
/// the disappearance of the connection.
pub fn on_datagram(context: &mut TransportContext, id: u64, event: DatagramEvent) -> (action:
    ReaderAction)
    requires
        old(context).wf(),
    ensures
        final(context).wf(),
        final(context).queues() == old(context).queues(),
        final(context)@ == match event {
            DatagramEvent::Received(datagram) => old(context)@.after_datagram_arrival(id, datagram@),
            DatagramEvent::Failed => old(context)@,
        },
        action == if old(context)@.is_connected(id) && event is Received {
            ReaderAction::Continue
        } else {
            ReaderAction::Stop
        },
{
    match event {
        DatagramEvent::Failed => ReaderAction::Stop,
        DatagramEvent::Received(datagram) => {
            match context.push_datagram(id, datagram.as_slice()) {
                Ok(_) => ReaderAction::Continue,
                Err(_) => ReaderAction::Stop,
            }
        },
    }
}

} // verus!
