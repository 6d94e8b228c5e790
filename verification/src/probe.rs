//! Availability probe: what to conclude from one attempt to reach the
//! backend within a fixed budget of time.

use crate::wake::{packet_payload, wake_frame, wake_signal};
use vstd::prelude::*;
use wake_on_lan::MagicPacket;

verus! {

/// The budget of one probe, in seconds.
pub const PROBE_BUDGET_SECONDS: u64 = 5;

/// How an attempt to reach the backend ended.
#[derive(Clone, Copy, Debug, PartialEq, Eq, Structural)]
pub enum ProbeOutcome {
    /// The backend answered within the budget, with whatever status.
    Answered,
    /// The request failed within the budget: the host is up and refuses.
    Refused,
    /// The budget ran out with no answer: the host may be powered down.
    TimedOut,
}

/// Whether the backend can be used for the turn at hand.
#[derive(Clone, Copy, Debug, PartialEq, Eq, Structural)]
pub enum Availability {
    Available,
    Unavailable,
}

/// What follows from a probe: whether the backend is available, and the wake
/// signal to send, if one is to be sent.
pub struct ProbeVerdict {
    pub availability: Availability,
    pub wake: Option<MagicPacket>,
}

/// The backend is available exactly when it answered.
pub open spec fn availability_of(outcome: ProbeOutcome) -> Availability {
    match outcome {
        ProbeOutcome::Answered => Availability::Available,
        ProbeOutcome::Refused => Availability::Unavailable,
        ProbeOutcome::TimedOut => Availability::Unavailable,
    }
}

/// A wake signal is sent exactly when the budget ran out: a host that refuses
/// is up already, and waking it would not help.
pub open spec fn wakes(outcome: ProbeOutcome) -> bool {
    outcome == ProbeOutcome::TimedOut
}

/// Concludes a probe of the backend whose host has the hardware identifier
/// `target`. The verdict holds one wake signal, addressed to `target`, where
/// the budget ran out, and none otherwise.
pub fn conclude(outcome: ProbeOutcome, target: &[u8; 6]) -> (verdict: ProbeVerdict)
    ensures
        verdict.availability == availability_of(outcome),
        verdict.wake is Some <==> wakes(outcome),
        verdict.wake matches Some(packet) ==> packet_payload(packet) == wake_frame(target@),
{
    match outcome {
        ProbeOutcome::Answered => ProbeVerdict {
            availability: Availability::Available,
            wake: None,
        },
        ProbeOutcome::Refused => ProbeVerdict {
            availability: Availability::Unavailable,
            wake: None,
        },
        ProbeOutcome::TimedOut => ProbeVerdict {
            availability: Availability::Unavailable,
            wake: Some(wake_signal(target)),
        },
    }
}

} // verus!
