//! Sending on the control stream. The stream is opened in the background
//! right after the connect, so a send may come before it is there: the send
//! then waits in short steps, up to a fixed budget, before it gives up.

use crate::context::TransportContext;
use crate::status::{size_status, TransportError};
use vstd::prelude::*;

verus! {

/// Number of waits a send on the control stream makes at most.
pub const CONTROL_RETRY_LIMIT: u32 = 50;

/// Length of one wait, in milliseconds.
pub const CONTROL_RETRY_DELAY_MS: u64 = 100;

/// What a send on the control stream does next.
#[derive(Clone, Copy, PartialEq, Eq, Debug, Structural)]
pub enum ControlSendAction {
    /// The control stream is open: write to it now.
    Send,
    /// The control stream is not open yet: wait `CONTROL_RETRY_DELAY_MS`,
    /// then ask again.
    Retry,
    /// The control stream did not open within the budget: give up.
    Unavailable,
    /// The connection is not registered: give up.
    NotFound,
}

/// The decision for a send that has waited `retries` times, given whether the
/// connection is registered and, if so, whether its control stream is open.
pub open spec fn control_send_decision(slot: Option<bool>, retries: u32) -> ControlSendAction {
    match slot {
        None => ControlSendAction::NotFound,
        Some(open) => if open {
            ControlSendAction::Send
        } else if retries < CONTROL_RETRY_LIMIT {
            ControlSendAction::Retry
        } else {
            ControlSendAction::Unavailable
        },
    }
}

/// Decides what a send that has waited `retries` times does next.
pub fn decide_control_send(slot: Option<bool>, retries: u32) -> (action: ControlSendAction)
    ensures
        action == control_send_decision(slot, retries),
{
    match slot {
        None => ControlSendAction::NotFound,
        Some(open) => {
            if open {
                ControlSendAction::Send
            } else if retries < CONTROL_RETRY_LIMIT {
                ControlSendAction::Retry
            } else {
                ControlSendAction::Unavailable
            }
        },
    }
}

/// Looks the connection up and decides what a send on its control stream,
/// which has waited `retries` times so far, does next.
pub fn control_send_step(context: &mut TransportContext, id: u64, retries: u32) -> (action:
    ControlSendAction)
    requires
        old(context).wf(),
    ensures
        final(context).wf(),
        final(context).queues() == old(context).queues(),
        final(context)@ == old(context)@,
        action == control_send_decision(
            if old(context)@.is_connected(id) {
                Some(old(context)@.connections[id].control_open)
            } else {
                None
            },
            retries,
        ),
{
    match context.control_open(id) {
        Ok(open) => decide_control_send(Some(open), retries),
        Err(_) => decide_control_send(None, retries),
    }
}

/// What a write of `len` bytes on a data stream of the transport is reported
/// as: the byte count, or a transport failure.
pub open spec fn send_report(written: bool, len: usize) -> Result<usize, TransportError> {
    if written {
        Ok(len)
    } else {
        Err(TransportError::TransportFailure)
    }
}

/// Reports how opening a data stream, writing `len` bytes to it and
/// finishing it went.
pub fn report_send(written: bool, len: usize) -> (report: Result<usize, TransportError>)
    ensures
        report == send_report(written, len),
{
    if written {
        Ok(len)
    } else {
        Err(TransportError::TransportFailure)
    }
}

/// What a send on the control stream reports once its decision is made and,
/// where the decision was to send, the write of `len` bytes has ended;
/// nothing while the decision is to wait and ask again. A write that failed
/// has a report of its own, so that unavailable is left to a stream that
/// never opened.
pub open spec fn control_send_report(action: ControlSendAction, written: bool, len: usize) -> Option<
    Result<usize, TransportError>,
> {
    match action {
        ControlSendAction::Send => if written {
            Some(Ok(len))
        } else {
            Some(Err(TransportError::ControlWriteFailed))
        },
        ControlSendAction::Retry => None,
        ControlSendAction::Unavailable => Some(Err(TransportError::Unavailable)),
        ControlSendAction::NotFound => Some(Err(TransportError::NotFound)),
    }
}

/// Reports how a send on the control stream ended. Unavailable is reported
/// for the decision that the retry budget is spent, and for nothing else.
pub fn report_control_send(action: ControlSendAction, written: bool, len: usize) -> (report: Option<
    Result<usize, TransportError>,
>)
    ensures
        report == control_send_report(action, written, len),
        report is None <==> action == ControlSendAction::Retry,
        report == Some(Err::<usize, TransportError>(TransportError::Unavailable)) <==> action
            == ControlSendAction::Unavailable,
{
    match action {
        ControlSendAction::Send => {
            if written {
                Some(Ok(len))
            } else {
                Some(Err(TransportError::ControlWriteFailed))
            }
        },
        ControlSendAction::Retry => None,
        ControlSendAction::Unavailable => Some(Err(TransportError::Unavailable)),
        ControlSendAction::NotFound => Some(Err(TransportError::NotFound)),
    }
}

/// A send on the control stream reports unavailable exactly when the
/// connection is registered, its control stream is not open and the retry
/// budget is spent. Once the stream is open, whatever the write comes to,
/// the report is never unavailable, and neither is its status.
pub proof fn lemma_unavailable_only_after_budget(
    slot: Option<bool>,
    retries: u32,
    written: bool,
    len: usize,
)
    ensures
        control_send_report(control_send_decision(slot, retries), written, len) == Some(
            Err::<usize, TransportError>(TransportError::Unavailable),
        ) <==> slot == Some(false) && retries >= CONTROL_RETRY_LIMIT,
        control_send_report(control_send_decision(slot, retries), written, len) matches Some(
            report,
        ) ==> (size_status(report) == TransportError::Unavailable.spec_code() <==> slot == Some(
            false,
        ) && retries >= CONTROL_RETRY_LIMIT),
{
}

/// How a send ends that has waited `retries` times so far, on a registered
/// connection whose control stream is open from the moment `opens_after`
/// waits have passed: the final decision and the number of waits made in
/// all.
pub open spec fn send_outcome(opens_after: nat, retries: nat) -> (ControlSendAction, nat)
    decreases CONTROL_RETRY_LIMIT - retries,
{
    if retries > CONTROL_RETRY_LIMIT {
        (ControlSendAction::Unavailable, retries)
    } else {
        let action = control_send_decision(Some(retries >= opens_after), retries as u32);
        if action == ControlSendAction::Retry {
            send_outcome(opens_after, retries + 1)
        } else {
            (action, retries)
        }
    }
}

/// A send succeeds as soon as the control stream is open, provided it opens
/// within the budget of `CONTROL_RETRY_LIMIT` waits, and it waits no longer
/// than needed; it fails as unavailable only if the stream is still not open
/// when the budget is spent.
pub proof fn lemma_send_within_budget(opens_after: nat)
    ensures
        opens_after <= CONTROL_RETRY_LIMIT ==> send_outcome(opens_after, 0) == (
            ControlSendAction::Send,
            opens_after,
        ),
        opens_after > CONTROL_RETRY_LIMIT ==> send_outcome(opens_after, 0) == (
            ControlSendAction::Unavailable,
            CONTROL_RETRY_LIMIT as nat,
        ),
        send_outcome(opens_after, 0).1 * CONTROL_RETRY_DELAY_MS <= 5000,
{
    lemma_send_from(opens_after, 0);
}

/// The outcome of `send_outcome` from any number of waits on.
proof fn lemma_send_from(opens_after: nat, retries: nat)
    requires
        retries <= CONTROL_RETRY_LIMIT,
        retries <= opens_after,
    ensures
        opens_after <= CONTROL_RETRY_LIMIT ==> send_outcome(opens_after, retries) == (
            ControlSendAction::Send,
            opens_after,
        ),
        opens_after > CONTROL_RETRY_LIMIT ==> send_outcome(opens_after, retries) == (
            ControlSendAction::Unavailable,
            CONTROL_RETRY_LIMIT as nat,
        ),
    decreases CONTROL_RETRY_LIMIT - retries,
{
    if retries < opens_after && retries < CONTROL_RETRY_LIMIT {
        lemma_send_from(opens_after, retries + 1);
    }
}

} // verus!
