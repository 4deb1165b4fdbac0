//! The heartbeat packet summarizing this node's view for its peers.

use vstd::prelude::*;

use crate::types::{MilestoneIndex, PeerId};

verus! {

/// A heartbeat: the sender's solid, pruned and latest milestone indices
/// and how many peers it is connected to and in sync with.
#[derive(Clone, Copy, PartialEq, Eq, Structural, Debug)]
pub struct Heartbeat {
    /// Highest milestone index whose cone is fully solid at the sender.
    pub solid_milestone_index: MilestoneIndex,
    /// Index below which the sender pruned history.
    pub pruned_index: MilestoneIndex,
    /// Highest milestone index the sender has seen.
    pub latest_milestone_index: MilestoneIndex,
    /// Peers the sender is connected to.
    pub connected_peers: u8,
    /// Peers the sender considers synchronized.
    pub synced_peers: u8,
}

impl Heartbeat {
    /// Builds a heartbeat.
    pub fn new(
        solid_milestone_index: MilestoneIndex,
        pruned_index: MilestoneIndex,
        latest_milestone_index: MilestoneIndex,
        connected_peers: u8,
        synced_peers: u8,
    ) -> (r: Heartbeat)
        ensures
            r == (Heartbeat {
                solid_milestone_index,
                pruned_index,
                latest_milestone_index,
                connected_peers,
                synced_peers,
            }),
    {
        Heartbeat { solid_milestone_index, pruned_index, latest_milestone_index, connected_peers, synced_peers }
    }
}

/// Builds the heartbeat to send to one peer.
pub fn send_heartbeat(
    to: PeerId,
    latest_solid_milestone_index: MilestoneIndex,
    pruning_milestone_index: MilestoneIndex,
    latest_milestone_index: MilestoneIndex,
    connected_peers: u8,
    synced_peers: u8,
) -> (r: (PeerId, Heartbeat))
    ensures
        r.0 == to,
        r.1 == (Heartbeat {
            solid_milestone_index: latest_solid_milestone_index,
            pruned_index: pruning_milestone_index,
            latest_milestone_index,
            connected_peers,
            synced_peers,
        }),
{
    (
        to,
        Heartbeat::new(
            latest_solid_milestone_index,
            pruning_milestone_index,
            latest_milestone_index,
            connected_peers,
            synced_peers,
        ),
    )
}

/// Builds the heartbeat to send to every connected peer.
pub fn broadcast_heartbeat(
    peers: &Vec<PeerId>,
    latest_solid_milestone_index: MilestoneIndex,
    pruning_milestone_index: MilestoneIndex,
    latest_milestone_index: MilestoneIndex,
    connected_peers: u8,
    synced_peers: u8,
) -> (r: Vec<(PeerId, Heartbeat)>)
    ensures
        r@.len() == peers@.len(),
        forall|i: int|
            0 <= i < peers@.len() ==> (#[trigger] r@[i]) == (
                peers@[i],
                Heartbeat {
                    solid_milestone_index: latest_solid_milestone_index,
                    pruned_index: pruning_milestone_index,
                    latest_milestone_index,
                    connected_peers,
                    synced_peers,
                },
            ),
{
    let mut r: Vec<(PeerId, Heartbeat)> = Vec::new();
    let mut i: usize = 0;
    while i < peers.len()
        invariant
            0 <= i <= peers@.len(),
            r@.len() == i,
            forall|j: int|
                0 <= j < i ==> (#[trigger] r@[j]) == (
                    peers@[j],
                    Heartbeat {
                        solid_milestone_index: latest_solid_milestone_index,
                        pruned_index: pruning_milestone_index,
                        latest_milestone_index,
                        connected_peers,
                        synced_peers,
                    },
                ),
        decreases peers@.len() - i,
    {
        let entry = send_heartbeat(
            peers[i],
            latest_solid_milestone_index,
            pruning_milestone_index,
            latest_milestone_index,
            connected_peers,
            synced_peers,
        );
        r.push(entry);
        i += 1;
    }
    r
}

} // verus!
