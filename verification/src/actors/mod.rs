//! The actors of the network layer: a coordinator, one discovery actor and one actor per group.

pub mod network_actor;

pub use crate::ids::{make_discovery_topic_id, make_group_topic_id, make_topic_id};

use vstd::prelude::*;
use vstd::string::*;

verus! {

/// Commands that every actor understands.
#[derive(Clone, Copy, Debug, PartialEq, Eq, Structural)]
pub enum SystemCommand {
    /// Stop.
    PoisonPill,
    /// Write diagnostics to the log.
    DumpDiagnostics,
    /// Report what is under way.
    PullInFlight,
}

/// A message to an actor: one that every actor understands, or one of its own.
#[derive(Debug, PartialEq, Eq)]
pub enum ActorMessage<C> {
    System(SystemCommand),
    Domain(C),
}

/// What the actor of a group tells the coordinator about snapshots.
#[derive(Clone, Debug, PartialEq, Eq)]
pub enum TopicNetworkCmd {
    NeedSnapshot { group_id: String },
    SnapshotComplete { group_id: String },
    /// The download failed; it will be tried again.
    SnapshotFailed { group_id: String, reason: String },
}

} // verus!
