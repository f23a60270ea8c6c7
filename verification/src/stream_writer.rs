//! Back-pressure stream writer: a bounded command queue between a caller that
//! must never block and the task that performs the writes on the transport.

use crate::status::TransportError;
use tokio::sync::mpsc::error::TrySendError;
use tokio::sync::mpsc::{Receiver, Sender};
use vstd::prelude::*;

verus! {

/// Largest queue bound the channel accepts: `usize::MAX` shifted right by
/// three bits, written as a division.
pub const MAX_CHANNEL_CAPACITY: usize = usize::MAX / 8;

/// Sending half of a bounded `tokio` channel; opaque to the verifier.
#[verifier::external_type_specification]
#[verifier::external_body]
#[verifier::reject_recursive_types(T)]
pub struct ExSender<T>(Sender<T>);

/// Receiving half of a bounded `tokio` channel; opaque to the verifier.
#[verifier::external_type_specification]
#[verifier::external_body]
#[verifier::reject_recursive_types(T)]
pub struct ExReceiver<T>(Receiver<T>);

/// Command submitted to a writer task.
#[derive(Debug)]
pub enum StreamCommand {
    /// Write these bytes to the stream.
    Write(Vec<u8>),
    /// Finish the stream and stop.
    Finish,
}

/// Why a command was not queued. Either way the command is handed back.
#[derive(Debug)]
pub enum SubmitError {
    /// The queue holds as many commands as its bound allows; try again later.
    QueueFull(StreamCommand),
    /// The writer task is gone; nothing will be written any more.
    Closed(StreamCommand),
}

impl SubmitError {
    /// The command that was not queued.
    pub open spec fn command(self) -> StreamCommand {
        match self {
            SubmitError::QueueFull(command) => command,
            SubmitError::Closed(command) => command,
        }
    }
}

/// The bound that a channel was made with, as its sending half keeps it.
pub uninterp spec fn channel_bound(sender: Sender<StreamCommand>) -> nat;

/// The channel that a sending half submits to.
pub uninterp spec fn sender_channel(sender: Sender<StreamCommand>) -> int;

/// The channel that a receiving half takes from.
pub uninterp spec fn receiver_channel(receiver: Receiver<StreamCommand>) -> int;

/// `tokio::sync::mpsc::channel`: a bounded channel for stream commands. The
/// bound must be positive and at most `MAX_CHANNEL_CAPACITY`, else the call
/// panics. The two halves are made as the ends of one channel, which keeps
/// the bound it was made with.
#[verifier::external_body]
fn command_channel(capacity: usize) -> (halves: (Sender<StreamCommand>, Receiver<StreamCommand>))
    requires
        0 < capacity <= MAX_CHANNEL_CAPACITY,
    ensures
        channel_bound(halves.0) == capacity,
        sender_channel(halves.0) == receiver_channel(halves.1),
{
    tokio::sync::mpsc::channel(capacity)
}

/// `tokio::sync::mpsc::Sender::max_capacity`: the bound that the channel was
/// made with.
#[verifier::external_body]
fn sender_bound(sender: &Sender<StreamCommand>) -> (bound: usize)
    ensures
        bound == channel_bound(*sender),
{
    sender.max_capacity()
}

/// `tokio::sync::mpsc::Sender::try_send`: queues the command without waiting.
/// Whether it succeeds depends on what the receiving task has done so far, so
/// the only claim is that a refused command comes back unchanged.
#[verifier::external_body]
fn channel_try_send(sender: &Sender<StreamCommand>, command: StreamCommand) -> (outcome: Result<
    (),
    SubmitError,
>)
    ensures
        outcome matches Err(refused) ==> refused.command() == command,
{
    match sender.try_send(command) {
        Ok(()) => Ok(()),
        Err(TrySendError::Full(unsent)) => Err(SubmitError::QueueFull(unsent)),
        Err(TrySendError::Closed(unsent)) => Err(SubmitError::Closed(unsent)),
    }
}

/// `Clone::clone` of a `tokio` sender. A sender is nothing but a shared
/// pointer to its channel, and the copy holds a pointer to the same channel:
/// the claim is that the copy equals the sender it was made from.
#[verifier::external_body]
fn sender_clone(sender: &Sender<StreamCommand>) -> (copy: Sender<StreamCommand>)
    ensures
        copy == *sender,
{
    sender.clone()
}

/// What a queued write of `len` bytes is reported as: the byte count when the
/// command was queued, back-pressure when the queue was full, closed when the
/// task has ended.
pub open spec fn write_report(outcome: Result<(), SubmitError>, len: usize) -> Result<
    usize,
    TransportError,
> {
    match outcome {
        Ok(_) => Ok(len),
        Err(SubmitError::QueueFull(_)) => Err(TransportError::QueueFull),
        Err(SubmitError::Closed(_)) => Err(TransportError::Closed),
    }
}

/// Reports the outcome of queueing a write of `len` bytes.
pub fn report_write(outcome: Result<(), SubmitError>, len: usize) -> (report: Result<
    usize,
    TransportError,
>)
    ensures
        report == write_report(outcome, len),
{
    match outcome {
        Ok(_) => Ok(len),
        Err(SubmitError::QueueFull(_)) => Err(TransportError::QueueFull),
        Err(SubmitError::Closed(_)) => Err(TransportError::Closed),
    }
}

/// What queueing a finish is reported as.
pub open spec fn finish_report(outcome: Result<(), SubmitError>) -> Result<(), TransportError> {
    match outcome {
        Ok(_) => Ok(()),
        Err(SubmitError::QueueFull(_)) => Err(TransportError::QueueFull),
        Err(SubmitError::Closed(_)) => Err(TransportError::Closed),
    }
}

/// Whether the writer leaves the registry after a finish was submitted: it
/// does once the finish is queued or the task is found to have ended, and
/// stays while the queue was merely full, so that the finish can be tried
/// again.
pub open spec fn finish_releases(outcome: Result<(), SubmitError>) -> bool {
    !(outcome matches Err(SubmitError::QueueFull(_)))
}

/// Reports the outcome of queueing a finish, and whether the writer is to
/// leave the registry.
pub fn report_finish(outcome: Result<(), SubmitError>) -> (report: (
    Result<(), TransportError>,
    bool,
))
    ensures
        report.0 == finish_report(outcome),
        report.1 == finish_releases(outcome),
{
    match outcome {
        Ok(_) => (Ok(()), true),
        Err(SubmitError::QueueFull(_)) => (Err(TransportError::QueueFull), false),
        Err(SubmitError::Closed(_)) => (Err(TransportError::Closed), true),
    }
}

/// Submission side of one outbound stream.
pub struct StreamWriter {
    tx: Sender<StreamCommand>,
    session_id: u64,
    stream_id: u64,
}

impl StreamWriter {
    /// Identifier of the connection the stream belongs to.
    pub closed spec fn spec_session_id(&self) -> u64 {
        self.session_id
    }

    /// Identifier of the stream.
    pub closed spec fn spec_stream_id(&self) -> u64 {
        self.stream_id
    }

    /// The handle through which this writer submits to its queue.
    pub closed spec fn spec_sender(&self) -> Sender<StreamCommand> {
        self.tx
    }

    /// The queue that this writer submits to.
    pub open spec fn spec_channel(&self) -> int {
        sender_channel(self.spec_sender())
    }

    /// The largest number of commands that the queue holds.
    pub open spec fn spec_capacity(&self) -> nat {
        channel_bound(self.spec_sender())
    }

    /// Creates the command queue of one outbound stream, bounded at
    /// `channel_capacity` commands. Returns the submission side and the
    /// receiving end, which belongs to the task that owns the stream.
    pub fn new(session_id: u64, stream_id: u64, channel_capacity: usize) -> (made: (
        StreamWriter,
        Receiver<StreamCommand>,
    ))
        requires
            0 < channel_capacity <= MAX_CHANNEL_CAPACITY,
        ensures
            made.0.spec_session_id() == session_id,
            made.0.spec_stream_id() == stream_id,
            made.0.spec_capacity() == channel_capacity,
            receiver_channel(made.1) == made.0.spec_channel(),
    {
        let (tx, rx) = command_channel(channel_capacity);
        (StreamWriter { tx, session_id, stream_id }, rx)
    }

    /// Queues a write of `data` without blocking.
    pub fn try_write(&self, data: Vec<u8>) -> (outcome: Result<(), SubmitError>)
        ensures
            outcome matches Err(refused) ==> refused.command() == StreamCommand::Write(data),
    {
        channel_try_send(&self.tx, StreamCommand::Write(data))
    }

    /// Queues the terminal finish command without blocking.
    pub fn try_finish(&self) -> (outcome: Result<(), SubmitError>)
        ensures
            outcome matches Err(refused) ==> refused.command() == StreamCommand::Finish,
    {
        channel_try_send(&self.tx, StreamCommand::Finish)
    }

    /// Another handle on the queue, for a party that submits by waiting for
    /// room instead of giving up on a full queue: a copy of the handle
    /// through which this writer submits, so that what goes in through
    /// either arrives at the same task.
    pub fn sender(&self) -> (handle: Sender<StreamCommand>)
        ensures
            handle == self.spec_sender(),
    {
        sender_clone(&self.tx)
    }

    /// The largest number of commands that the queue holds.
    pub fn capacity(&self) -> (bound: usize)
        ensures
            bound == self.spec_capacity(),
    {
        sender_bound(&self.tx)
    }

    /// Identifier of the connection the stream belongs to.
    pub fn session_id(&self) -> (id: u64)
        ensures
            id == self.spec_session_id(),
    {
        self.session_id
    }

    /// Identifier of the stream.
    pub fn stream_id(&self) -> (id: u64)
        ensures
            id == self.spec_stream_id(),
    {
        self.stream_id
    }
}

} // verus!

verus! {

/// Where the task that owns an outbound stream stands.
#[derive(Clone, Copy, PartialEq, Eq, Debug, Structural)]
pub enum WriterPhase {
    /// Commands are still being taken from the queue.
    Open,
    /// A finish command was taken: the stream was finished, the task is over.
    Finished,
    /// A write on the transport failed: the task is over.
    Failed,
    /// The queue was closed without a finish command: the task is over.
    Disconnected,
}

/// What the task does next on the transport.
#[derive(Debug)]
pub enum WriterAction {
    /// Write all of these bytes, then report how the write went.
    Write(Vec<u8>),
    /// Finish the stream on the transport, then end the task.
    Finish,
    /// End the task without touching the stream.
    Stop,
}

/// Phase of the task after it took `received` from the queue (`None`: the
/// queue is closed and drained).
pub open spec fn phase_after(phase: WriterPhase, received: Option<StreamCommand>) -> WriterPhase {
    match phase {
        WriterPhase::Open => match received {
            Some(StreamCommand::Write(_)) => WriterPhase::Open,
            Some(StreamCommand::Finish) => WriterPhase::Finished,
            None => WriterPhase::Disconnected,
        },
        _ => phase,
    }
}

/// Action of the task on taking `received` from the queue.
pub open spec fn action_for(phase: WriterPhase, received: Option<StreamCommand>) -> WriterAction {
    match phase {
        WriterPhase::Open => match received {
            Some(StreamCommand::Write(data)) => WriterAction::Write(data),
            Some(StreamCommand::Finish) => WriterAction::Finish,
            None => WriterAction::Stop,
        },
        _ => WriterAction::Stop,
    }
}

/// Phase of the task after a write on the transport ended.
pub open spec fn phase_after_write(phase: WriterPhase, succeeded: bool) -> WriterPhase {
    if phase == WriterPhase::Open && !succeeded {
        WriterPhase::Failed
    } else {
        phase
    }
}

/// Decisions of the task that owns one outbound stream. The task takes
/// commands from the queue one by one and asks here what to do with each.
pub struct WriterTask {
    phase: WriterPhase,
}

impl WriterTask {
    /// The current phase.
    pub closed spec fn spec_phase(&self) -> WriterPhase {
        self.phase
    }

    /// A task that has taken no command yet.
    pub fn new() -> (task: WriterTask)
        ensures
            task.spec_phase() == WriterPhase::Open,
    {
        WriterTask { phase: WriterPhase::Open }
    }

    /// The current phase.
    pub fn phase(&self) -> (phase: WriterPhase)
        ensures
            phase == self.spec_phase(),
    {
        self.phase
    }

    /// Whether the task goes on taking commands.
    pub fn is_running(&self) -> (running: bool)
        ensures
            running <==> self.spec_phase() == WriterPhase::Open,
    {
        self.phase == WriterPhase::Open
    }

    /// Takes what the queue handed out and says what to do on the transport.
    pub fn on_command(&mut self, received: Option<StreamCommand>) -> (action: WriterAction)
        ensures
            action == action_for(old(self).spec_phase(), received),
            final(self).spec_phase() == phase_after(old(self).spec_phase(), received),
    {
        if self.phase != WriterPhase::Open {
            return WriterAction::Stop;
        }
        match received {
            Some(StreamCommand::Write(data)) => WriterAction::Write(data),
            Some(StreamCommand::Finish) => {
                self.phase = WriterPhase::Finished;
                WriterAction::Finish
            },
            None => {
                self.phase = WriterPhase::Disconnected;
                WriterAction::Stop
            },
        }
    }

    /// Records how the write that `on_command` asked for went.
    pub fn on_write_result(&mut self, succeeded: bool)
        ensures
            final(self).spec_phase() == phase_after_write(old(self).spec_phase(), succeeded),
    {
        if self.phase == WriterPhase::Open && !succeeded {
            self.phase = WriterPhase::Failed;
        }
    }
}

/// The write commands for `payloads`, in order.
pub open spec fn write_commands(payloads: Seq<Vec<u8>>) -> Seq<StreamCommand> {
    Seq::new(payloads.len(), |i: int| StreamCommand::Write(payloads[i]))
}

/// The write actions for `payloads`, in order.
pub open spec fn write_actions(payloads: Seq<Vec<u8>>) -> Seq<WriterAction> {
    Seq::new(payloads.len(), |i: int| WriterAction::Write(payloads[i]))
}

/// Actions of a task that starts in `phase`, takes `commands` in order and
/// whose writes all succeed. Commands behind the one that ends the task are
/// never acted on.
pub open spec fn transcript(phase: WriterPhase, commands: Seq<StreamCommand>) -> Seq<WriterAction>
    decreases commands.len(),
{
    if commands.len() == 0 || phase != WriterPhase::Open {
        Seq::empty()
    } else {
        seq![action_for(phase, Some(commands[0]))] + transcript(
            phase_after(phase, Some(commands[0])),
            commands.skip(1),
        )
    }
}

/// Phase in which the task of `transcript` ends up.
pub open spec fn phase_after_all(phase: WriterPhase, commands: Seq<StreamCommand>) -> WriterPhase
    decreases commands.len(),
{
    if commands.len() == 0 || phase != WriterPhase::Open {
        phase
    } else {
        phase_after_all(phase_after(phase, Some(commands[0])), commands.skip(1))
    }
}

/// Writes submitted before a finish reach the transport in submission order,
/// the stream is then finished exactly once, and whatever was queued behind
/// the finish is never acted on.
pub proof fn lemma_writes_then_finish(payloads: Seq<Vec<u8>>, later: Seq<StreamCommand>)
    ensures
        transcript(
            WriterPhase::Open,
            write_commands(payloads) + seq![StreamCommand::Finish] + later,
        ) == write_actions(payloads) + seq![WriterAction::Finish],
        phase_after_all(
            WriterPhase::Open,
            write_commands(payloads) + seq![StreamCommand::Finish] + later,
        ) == WriterPhase::Finished,
    decreases payloads.len(),
{
    let commands = write_commands(payloads) + seq![StreamCommand::Finish] + later;
    if payloads.len() == 0 {
        assert(commands[0] == StreamCommand::Finish);
        assert(transcript(WriterPhase::Finished, commands.skip(1)) == Seq::<WriterAction>::empty());
        assert(phase_after_all(WriterPhase::Finished, commands.skip(1)) == WriterPhase::Finished);
        assert(transcript(WriterPhase::Open, commands) =~= write_actions(payloads)
            + seq![WriterAction::Finish]);
    } else {
        let tail = payloads.skip(1);
        assert(commands[0] == StreamCommand::Write(payloads[0]));
        assert(commands.skip(1) =~= write_commands(tail) + seq![StreamCommand::Finish] + later);
        lemma_writes_then_finish(tail, later);
        assert(write_actions(payloads) + seq![WriterAction::Finish] =~= seq![
            WriterAction::Write(payloads[0]),
        ] + (write_actions(tail) + seq![WriterAction::Finish]));
    }
}

/// A task whose queue is closed before any finish was submitted performs the
/// writes in order and stops without finishing the stream.
pub proof fn lemma_writes_then_disconnect(payloads: Seq<Vec<u8>>)
    ensures
        transcript(WriterPhase::Open, write_commands(payloads)) == write_actions(payloads),
        phase_after_all(WriterPhase::Open, write_commands(payloads)) == WriterPhase::Open,
        phase_after(WriterPhase::Open, None) == WriterPhase::Disconnected,
        action_for(WriterPhase::Open, None) == WriterAction::Stop,
    decreases payloads.len(),
{
    let commands = write_commands(payloads);
    if payloads.len() == 0 {
        assert(transcript(WriterPhase::Open, commands) =~= write_actions(payloads));
    } else {
        let tail = payloads.skip(1);
        assert(commands.skip(1) =~= write_commands(tail));
        lemma_writes_then_disconnect(tail);
        assert(write_actions(payloads) =~= seq![WriterAction::Write(payloads[0])] + write_actions(
            tail,
        ));
    }
}

} // verus!
