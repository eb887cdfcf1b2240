//! Whether the node is healthy, and what follows from it.

use vstd::prelude::*;

verus! {

/// How often the node's health is asked for, in milliseconds.
pub const MONITOR_INTERVAL_MS: u64 = 100;

/// How long to wait before asking again when no answer came, in seconds.
pub const RETRY_SECONDS: u64 = 5;

/// What came back when the node was asked for its health.
#[derive(Debug, Clone, Copy, PartialEq, Eq, Structural)]
pub enum HealthReply {
    /// It is healthy.
    Healthy,
    /// It said that it is not.
    NodeUnhealthy,
    /// It could not be asked, or said something else.
    Failed,
}

/// What to do next.
#[derive(Debug, Clone, Copy, PartialEq, Eq, Structural)]
pub enum HealthStep {
    /// The node's health is known.
    Known(bool),
    /// Log the failure, wait so many seconds, and ask again.
    RetryAfter(u64),
}

/// Decides what follows from a reply. Only the node itself can say that it is unhealthy; any
/// other failure is tried again.
pub fn is_node_healthy(reply: HealthReply) -> (step: HealthStep)
    ensures
        step == match reply {
            HealthReply::Healthy => HealthStep::Known(true),
            HealthReply::NodeUnhealthy => HealthStep::Known(false),
            HealthReply::Failed => HealthStep::RetryAfter(RETRY_SECONDS),
        },
{
    match reply {
        HealthReply::Healthy => HealthStep::Known(true),
        HealthReply::NodeUnhealthy => HealthStep::Known(false),
        HealthReply::Failed => HealthStep::RetryAfter(RETRY_SECONDS),
    }
}

/// Decides whether subscribers are to be disconnected: while the node is unhealthy.
pub fn run_forced_disconnection_monitor(is_healthy: bool) -> (should_disconnect: bool)
    ensures
        should_disconnect == !is_healthy,
{
    !is_healthy
}

} // verus!
