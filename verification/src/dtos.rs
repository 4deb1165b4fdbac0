//! Peer-facing data shapes of the API, and the node's view of a peer they
//! are built from.

use vstd::prelude::*;

verus! {

/// How a peer came to be known.
#[derive(Clone, Copy, PartialEq, Eq, Structural, Debug)]
pub enum PeerRelation {
    /// Configured explicitly.
    Known,
    /// Seen without configuration.
    Unknown,
    /// Found by autopeering.
    Discovered,
}

/// Gossip-stream counters of one peer.
#[derive(Clone, Copy, PartialEq, Eq, Structural, Debug)]
pub struct PeerMetrics {
    /// Messages first seen from this peer.
    pub new_blocks: u64,
    /// Messages received from this peer.
    pub received_blocks: u64,
    /// Messages received that were already known.
    pub known_blocks: u64,
    /// Message requests received.
    pub received_block_requests: u64,
    /// Milestone requests received.
    pub received_milestone_requests: u64,
    /// Heartbeats received.
    pub received_heartbeats: u64,
    /// Messages sent.
    pub sent_blocks: u64,
    /// Message requests sent.
    pub sent_block_requests: u64,
    /// Milestone requests sent.
    pub sent_milestone_requests: u64,
    /// Heartbeats sent.
    pub sent_heartbeats: u64,
}

/// The node's view of one gossip peer.
#[derive(Clone, Debug)]
pub struct Peer {
    /// Display form of the peer's identifier.
    pub id: String,
    /// The peer's configured alias.
    pub alias: String,
    /// Display form of the peer's address.
    pub address: String,
    /// How the peer came to be known.
    pub relation: PeerRelation,
    /// Whether the peer is currently connected.
    pub connected: bool,
    /// The peer's advertised solid milestone index.
    pub solid_milestone_index: u32,
    /// The peer's advertised pruned index.
    pub pruned_index: u32,
    /// The peer's advertised latest milestone index.
    pub latest_milestone_index: u32,
    /// Peers the peer reports being connected to.
    pub connected_peers: u8,
    /// Peers the peer reports being in sync with.
    pub synced_peers: u8,
    /// Gossip counters for the peer.
    pub metrics: PeerMetrics,
}

/// Describes the relation with the peer.
#[derive(Clone, Copy, PartialEq, Eq, Structural, Debug)]
pub enum RelationDto {
    /// Configured explicitly.
    Known,
    /// Seen without configuration.
    Unknown,
    /// Found by autopeering.
    Autopeered,
}

/// Describes the heartbeat of a node.
#[derive(Clone, Copy, PartialEq, Eq, Structural, Debug)]
pub struct HeartbeatDto {
    /// Advertised solid milestone index.
    pub solid_milestone_index: u32,
    /// Advertised pruned milestone index.
    pub pruned_milestone_index: u32,
    /// Advertised latest milestone index.
    pub latest_milestone_index: u32,
    /// Reported connected neighbors.
    pub connected_neighbors: u8,
    /// Reported synced neighbors.
    pub synced_neighbors: u8,
}

impl Default for HeartbeatDto {
    /// All counters zero.
    fn default() -> (r: HeartbeatDto)
        ensures
            r == (HeartbeatDto {
                solid_milestone_index: 0,
                pruned_milestone_index: 0,
                latest_milestone_index: 0,
                connected_neighbors: 0,
                synced_neighbors: 0,
            }),
    {
        HeartbeatDto {
            solid_milestone_index: 0,
            pruned_milestone_index: 0,
            latest_milestone_index: 0,
            connected_neighbors: 0,
            synced_neighbors: 0,
        }
    }
}

/// Describes metrics of a gossip stream.
#[derive(Clone, Copy, PartialEq, Eq, Structural, Debug)]
pub struct MetricsDto {
    /// Messages first seen from the peer.
    pub new_blocks: u64,
    /// Messages received.
    pub received_blocks: u64,
    /// Messages received that were already known.
    pub known_blocks: u64,
    /// Message requests received.
    pub received_block_requests: u64,
    /// Milestone requests received.
    pub received_milestone_requests: u64,
    /// Heartbeats received.
    pub received_heartbeats: u64,
    /// Messages sent.
    pub sent_blocks: u64,
    /// Message requests sent.
    pub sent_block_requests: u64,
    /// Milestone requests sent.
    pub sent_milestone_requests: u64,
    /// Heartbeats sent.
    pub sent_heartbeats: u64,
    /// Packets dropped.
    pub dropped_packets: u64,
}

impl Default for MetricsDto {
    /// All counters zero.
    fn default() -> (r: MetricsDto)
        ensures
            r == (MetricsDto {
                new_blocks: 0,
                received_blocks: 0,
                known_blocks: 0,
                received_block_requests: 0,
                received_milestone_requests: 0,
                received_heartbeats: 0,
                sent_blocks: 0,
                sent_block_requests: 0,
                sent_milestone_requests: 0,
                sent_heartbeats: 0,
                dropped_packets: 0,
            }),
    {
        MetricsDto {
            new_blocks: 0,
            received_blocks: 0,
            known_blocks: 0,
            received_block_requests: 0,
            received_milestone_requests: 0,
            received_heartbeats: 0,
            sent_blocks: 0,
            sent_block_requests: 0,
            sent_milestone_requests: 0,
            sent_heartbeats: 0,
            dropped_packets: 0,
        }
    }
}

/// Returns all information about the gossip stream with the peer.
#[derive(Clone, Copy, PartialEq, Eq, Structural, Debug)]
pub struct GossipDto {
    /// The peer's last heartbeat.
    pub heartbeat: HeartbeatDto,
    /// The gossip counters.
    pub metrics: MetricsDto,
}

impl Default for GossipDto {
    /// All counters zero.
    fn default() -> (r: GossipDto)
        ensures
            r.heartbeat == (HeartbeatDto {
                solid_milestone_index: 0,
                pruned_milestone_index: 0,
                latest_milestone_index: 0,
                connected_neighbors: 0,
                synced_neighbors: 0,
            }),
            r.metrics == (MetricsDto {
                new_blocks: 0,
                received_blocks: 0,
                known_blocks: 0,
                received_block_requests: 0,
                received_milestone_requests: 0,
                received_heartbeats: 0,
                sent_blocks: 0,
                sent_block_requests: 0,
                sent_milestone_requests: 0,
                sent_heartbeats: 0,
                dropped_packets: 0,
            }),
    {
        GossipDto { heartbeat: HeartbeatDto::default(), metrics: MetricsDto::default() }
    }
}

/// Describes a peer.
#[derive(Clone, Debug)]
pub struct PeerDto {
    /// Display form of the peer's identifier.
    pub id: String,
    /// Display forms of the peer's addresses.
    pub multi_addresses: Vec<String>,
    /// The peer's alias, when known.
    pub alias: Option<String>,
    /// How the peer came to be known.
    pub relation: RelationDto,
    /// Whether the peer is currently connected.
    pub connected: bool,
    /// The peer's gossip stream, when one exists.
    pub gossip: Option<GossipDto>,
}

impl PeerDto {
    /// Reshapes the node's view of a peer for API consumers; the one
    /// address becomes the address list, and packets are never counted as
    /// dropped.
    pub fn from_peer(peer: Peer) -> (r: PeerDto)
        ensures
            r.id@ == peer.id@,
            r.multi_addresses@.len() == 1,
            r.multi_addresses@[0]@ == peer.address@,
            r.alias is Some && r.alias->0@ == peer.alias@,
            r.relation == (match peer.relation {
                PeerRelation::Known => RelationDto::Known,
                PeerRelation::Unknown => RelationDto::Unknown,
                PeerRelation::Discovered => RelationDto::Autopeered,
            }),
            r.connected == peer.connected,
            r.gossip is Some,
            r.gossip->0.heartbeat == (HeartbeatDto {
                solid_milestone_index: peer.solid_milestone_index,
                pruned_milestone_index: peer.pruned_index,
                latest_milestone_index: peer.latest_milestone_index,
                connected_neighbors: peer.connected_peers,
                synced_neighbors: peer.synced_peers,
            }),
            r.gossip->0.metrics == (MetricsDto {
                new_blocks: peer.metrics.new_blocks,
                received_blocks: peer.metrics.received_blocks,
                known_blocks: peer.metrics.known_blocks,
                received_block_requests: peer.metrics.received_block_requests,
                received_milestone_requests: peer.metrics.received_milestone_requests,
                received_heartbeats: peer.metrics.received_heartbeats,
                sent_blocks: peer.metrics.sent_blocks,
                sent_block_requests: peer.metrics.sent_block_requests,
                sent_milestone_requests: peer.metrics.sent_milestone_requests,
                sent_heartbeats: peer.metrics.sent_heartbeats,
                dropped_packets: 0,
            }),
    {
        let relation = match peer.relation {
            PeerRelation::Known => RelationDto::Known,
            PeerRelation::Unknown => RelationDto::Unknown,
            PeerRelation::Discovered => RelationDto::Autopeered,
        };
        let mut multi_addresses: Vec<String> = Vec::new();
        multi_addresses.push(peer.address);
        PeerDto {
            id: peer.id,
            multi_addresses,
            alias: Some(peer.alias),
            relation,
            connected: peer.connected,
            gossip: Some(
                GossipDto {
                    heartbeat: HeartbeatDto {
                        solid_milestone_index: peer.solid_milestone_index,
                        pruned_milestone_index: peer.pruned_index,
                        latest_milestone_index: peer.latest_milestone_index,
                        connected_neighbors: peer.connected_peers,
                        synced_neighbors: peer.synced_peers,
                    },
                    metrics: MetricsDto {
                        new_blocks: peer.metrics.new_blocks,
                        received_blocks: peer.metrics.received_blocks,
                        known_blocks: peer.metrics.known_blocks,
                        received_block_requests: peer.metrics.received_block_requests,
                        received_milestone_requests: peer.metrics.received_milestone_requests,
                        received_heartbeats: peer.metrics.received_heartbeats,
                        sent_blocks: peer.metrics.sent_blocks,
                        sent_block_requests: peer.metrics.sent_block_requests,
                        sent_milestone_requests: peer.metrics.sent_milestone_requests,
                        sent_heartbeats: peer.metrics.sent_heartbeats,
                        dropped_packets: 0,
                    },
                },
            ),
        }
    }
}

} // verus!
