//! What a listener does with each thing that `accept` hands it: a new
//! connection is admitted or turned away, a failure is passed over or waited
//! out.

use vstd::prelude::*;
use crate::clock::Moment;
use crate::metrics::Metrics;
use crate::metrics::Registry;
use crate::metrics::first_free;
use crate::tarpit::Idle;

verus! {

/// How long a listener waits after a failure of `accept` that is no
/// ordinary churn, in milliseconds.
pub const ACCEPT_BACKOFF_MILLIS: u64 = 100;

/// A failure of `accept`.
#[derive(Clone, Copy, Debug, PartialEq, Eq, Structural)]
pub enum AcceptFault {
    /// The peer refused the connection.
    ConnectionRefused,
    /// The connection was aborted.
    ConnectionAborted,
    /// The peer reset the connection.
    ConnectionReset,
    /// Anything else, such as a lack of file descriptors.
    Other,
}

impl AcceptFault {
    /// Whether the failure is ordinary churn, which a listener passes over.
    pub open spec fn is_churn(self) -> bool {
        self != AcceptFault::Other
    }
}

/// What a listener does next.
#[derive(Debug, PartialEq, Eq)]
pub enum Instruction {
    /// Serve the new connection; `clients` connections are live with it.
    Serve { clients: usize, connection: Idle },
    /// Close the new connection without a byte; `clients` connections are live.
    Reject { clients: usize },
    /// Accept again at once.
    Retry,
    /// Wait for `millis` milliseconds, then accept again.
    Wait { millis: u64 },
}

/// The registry and the instruction after `accept` has returned `accepted`
/// at the moment `now`. A new connection asks the registry for admission
/// under the limit `max_clients`; where it is admitted, it stands before its
/// first cycle over a banner of `banner_len` bytes.
pub open spec fn instructed(
    registry: Registry,
    accepted: Result<(), AcceptFault>,
    max_clients: usize,
    now: Moment,
    banner_len: usize,
    instruction: Instruction,
) -> bool {
    match accepted {
        Ok(_) => if registry.has_room(max_clients) {
            &&& instruction matches Instruction::Serve { clients, connection }
            &&& clients == registry.live() + 1
            &&& connection.token@ == first_free(registry.slots)
            &&& connection.banner_len == banner_len
        } else {
            instruction == (Instruction::Reject { clients: registry.live() as usize })
        },
        Err(fault) => if fault.is_churn() {
            instruction == Instruction::Retry
        } else {
            instruction == (Instruction::Wait { millis: ACCEPT_BACKOFF_MILLIS })
        },
    }
}

/// Decides what a listener does after `accept` has returned.
pub fn on_accept(
    registry: &mut Metrics,
    accepted: Result<(), AcceptFault>,
    max_clients: usize,
    now: Moment,
    banner_len: usize,
) -> (instruction: Instruction)
    requires
        old(registry).wf(),
    ensures
        final(registry).wf(),
        final(registry)@ == (match accepted {
            Ok(_) => old(registry)@.connected(max_clients, now),
            Err(_) => old(registry)@,
        }),
        instructed(old(registry)@, accepted, max_clients, now, banner_len, instruction),
{
    match accepted {
        Ok(_) => match registry.connect(max_clients, now) {
            Ok((clients, token)) => Instruction::Serve {
                clients,
                connection: Idle::new(token, banner_len),
            },
            Err(clients) => Instruction::Reject { clients },
        },
        Err(AcceptFault::ConnectionRefused) => Instruction::Retry,
        Err(AcceptFault::ConnectionAborted) => Instruction::Retry,
        Err(AcceptFault::ConnectionReset) => Instruction::Retry,
        Err(AcceptFault::Other) => Instruction::Wait { millis: ACCEPT_BACKOFF_MILLIS },
    }
}

} // verus!
