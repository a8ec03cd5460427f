//! Plain-value model of the coordinator's surroundings.
//!
//! Peers, gossip delivery ids, discovery records and addresses are opaque
//! identifiers to the coordinator; they are carried here as integers.
//! The protocol engines deliver their events as values of the enums below,
//! and the coordinator answers with [`Action`] values that the surrounding
//! runtime performs against the real engines.

use vstd::prelude::*;

verus! {

/// Wire encoding used inside gossip topic names.
#[derive(Debug, Clone, Copy, PartialEq, Eq, Structural)]
pub enum GossipEncoding {
    Ssz,
}

impl Default for GossipEncoding {
    fn default() -> (r: Self)
        ensures
            r == GossipEncoding::Ssz,
    {
        GossipEncoding::Ssz
    }
}

/// The message kind of a gossip topic.
#[derive(Debug, Clone, Copy, PartialEq, Eq, Structural)]
pub enum GossipKind {
    BeaconBlock,
    BeaconAggregateAndProof,
    VoluntaryExit,
    ProposerSlashing,
    AttesterSlashing,
    /// Attestations for one long-lived subnet.
    Attestation(u64),
}

/// A gossip topic: message kind, encoding, and the digest of the fork the
/// topic belongs to. Equality is over all three fields.
#[derive(Debug, Clone, Copy, PartialEq, Eq, Structural)]
pub struct GossipTopic {
    pub kind: GossipKind,
    pub encoding: GossipEncoding,
    pub fork_digest: u64,
}

impl GossipTopic {
    pub fn new(kind: GossipKind, encoding: GossipEncoding, fork_digest: u64) -> (r: Self)
        ensures
            r == (GossipTopic { kind, encoding, fork_digest }),
    {
        GossipTopic { kind, encoding, fork_digest }
    }

    /// The fork-independent part of the topic: what P2P peers subscribe to
    /// across forks.
    pub open spec fn name(self) -> (GossipKind, GossipEncoding) {
        (self.kind, self.encoding)
    }

    /// The same topic re-bound to another fork digest.
    pub open spec fn with_digest(self, fork_digest: u64) -> GossipTopic {
        GossipTopic { kind: self.kind, encoding: self.encoding, fork_digest }
    }
}

/// Process-wide description of the active protocol fork, mirrored into the
/// local discovery record.
#[derive(Debug, Clone, Copy, PartialEq, Eq, Structural)]
pub struct EnrForkId {
    pub fork_digest: u64,
    pub next_fork_version: u64,
    pub next_fork_epoch: u64,
}

/// The node's own metadata, exchanged over RPC: a monotonically increasing
/// sequence number and the bitfield of subscribed long-lived subnets.
#[derive(Debug, Clone, Copy, PartialEq, Eq, Structural)]
pub struct MetaData {
    pub seq_number: u64,
    pub attnets: u64,
}

/// A decoded gossip payload, tagged by the kind of topic it travels on.
#[derive(Debug, PartialEq, Eq)]
pub enum PubsubMessage {
    BeaconBlock(Vec<u8>),
    AggregateAndProofAttestation(Vec<u8>),
    /// An unaggregated attestation together with its subnet.
    Attestation(u64, Vec<u8>),
    VoluntaryExit(Vec<u8>),
    ProposerSlashing(Vec<u8>),
    AttesterSlashing(Vec<u8>),
}

impl PubsubMessage {
    /// The kind of topic this message travels on.
    pub open spec fn kind_spec(self) -> GossipKind {
        match self {
            PubsubMessage::BeaconBlock(_) => GossipKind::BeaconBlock,
            PubsubMessage::AggregateAndProofAttestation(_) => GossipKind::BeaconAggregateAndProof,
            PubsubMessage::Attestation(subnet, _) => GossipKind::Attestation(subnet),
            PubsubMessage::VoluntaryExit(_) => GossipKind::VoluntaryExit,
            PubsubMessage::ProposerSlashing(_) => GossipKind::ProposerSlashing,
            PubsubMessage::AttesterSlashing(_) => GossipKind::AttesterSlashing,
        }
    }

    /// The payload vector the message holds.
    pub open spec fn payload_vec(self) -> Vec<u8> {
        match self {
            PubsubMessage::BeaconBlock(d) => d,
            PubsubMessage::AggregateAndProofAttestation(d) => d,
            PubsubMessage::Attestation(_, d) => d,
            PubsubMessage::VoluntaryExit(d) => d,
            PubsubMessage::ProposerSlashing(d) => d,
            PubsubMessage::AttesterSlashing(d) => d,
        }
    }

    /// The encoded payload carried by the message.
    pub open spec fn payload_spec(self) -> Seq<u8> {
        match self {
            PubsubMessage::BeaconBlock(d) => d@,
            PubsubMessage::AggregateAndProofAttestation(d) => d@,
            PubsubMessage::Attestation(_, d) => d@,
            PubsubMessage::VoluntaryExit(d) => d@,
            PubsubMessage::ProposerSlashing(d) => d@,
            PubsubMessage::AttesterSlashing(d) => d@,
        }
    }

    pub fn kind(&self) -> (r: GossipKind)
        ensures
            r == self.kind_spec(),
    {
        match self {
            PubsubMessage::BeaconBlock(_) => GossipKind::BeaconBlock,
            PubsubMessage::AggregateAndProofAttestation(_) => GossipKind::BeaconAggregateAndProof,
            PubsubMessage::Attestation(subnet, _) => GossipKind::Attestation(*subnet),
            PubsubMessage::VoluntaryExit(_) => GossipKind::VoluntaryExit,
            PubsubMessage::ProposerSlashing(_) => GossipKind::ProposerSlashing,
            PubsubMessage::AttesterSlashing(_) => GossipKind::AttesterSlashing,
        }
    }

    /// Consumes the message and hands out the encoded payload.
    pub fn into_payload(self) -> (r: Vec<u8>)
        ensures
            r == self.payload_vec(),
            r@ == self.payload_spec(),
    {
        match self {
            PubsubMessage::BeaconBlock(d) => d,
            PubsubMessage::AggregateAndProofAttestation(d) => d,
            PubsubMessage::Attestation(_, d) => d,
            PubsubMessage::VoluntaryExit(d) => d,
            PubsubMessage::ProposerSlashing(d) => d,
            PubsubMessage::AttesterSlashing(d) => d,
        }
    }

    /// Whether a delivery decodes at all: the payload is filed under the
    /// kind of the first topic it was delivered on, and a delivery without
    /// any topic cannot be decoded.
    pub open spec fn decodes(topics: Seq<GossipTopic>) -> bool {
        topics.len() > 0
    }

    /// The decoded form of a delivery: the payload filed under the kind of
    /// the delivery's first topic.
    pub open spec fn is_decoding_of(
        self,
        topics: Seq<GossipTopic>,
        data: Seq<u8>,
    ) -> bool {
        &&& topics.len() > 0
        &&& self.kind_spec() == topics[0].kind
        &&& self.payload_spec() == data
    }

    /// Decodes an inbound delivery by its topic list.
    pub fn decode(topics: &Vec<GossipTopic>, data: Vec<u8>) -> (r: Option<PubsubMessage>)
        ensures
            r is Some <==> Self::decodes(topics@),
            r matches Some(m) ==> m.is_decoding_of(topics@, data@),
    {
        if topics.len() == 0 {
            return None;
        }
        let kind = topics[0].kind;
        let r = match kind {
            GossipKind::BeaconBlock => PubsubMessage::BeaconBlock(data),
            GossipKind::BeaconAggregateAndProof => PubsubMessage::AggregateAndProofAttestation(
                data,
            ),
            GossipKind::Attestation(subnet) => PubsubMessage::Attestation(subnet, data),
            GossipKind::VoluntaryExit => PubsubMessage::VoluntaryExit(data),
            GossipKind::ProposerSlashing => PubsubMessage::ProposerSlashing(data),
            GossipKind::AttesterSlashing => PubsubMessage::AttesterSlashing(data),
        };
        Some(r)
    }
}

/// A typed RPC request.
#[derive(Debug, PartialEq, Eq)]
pub enum RpcRequest {
    Status(Vec<u8>),
    Goodbye(u64),
    BlocksByRange(u64, u64),
    BlocksByRoot(Vec<u8>),
    Ping(u64),
    MetaData,
}

/// A typed RPC response.
#[derive(Debug, PartialEq, Eq)]
pub enum RpcResponse {
    Status(Vec<u8>),
    BlocksByRange(Vec<u8>),
    BlocksByRoot(Vec<u8>),
    Pong(u64),
    MetaData(MetaData),
}

/// One RPC exchange step: a request or response carrying its request id,
/// or a protocol error `(request id, protocol id, error detail)`.
#[derive(Debug, PartialEq, Eq)]
pub enum RpcEvent {
    Request(u64, RpcRequest),
    Response(u64, RpcResponse),
    Error(u64, u64, u64),
}

/// Peer metadata delivered by the identify engine. Address and version
/// identifiers are opaque to the coordinator.
#[derive(Debug, PartialEq, Eq)]
pub struct IdentifyInfo {
    pub protocol_version: u64,
    pub agent_version: u64,
    pub listen_addrs: Vec<u64>,
    pub protocols: Vec<u64>,
    pub observed_addr: u64,
}

/// An event delivered by the gossip engine.
#[derive(Debug, PartialEq, Eq)]
pub enum GossipEvent {
    /// A message delivery: the peer that relayed it, the delivery id, the
    /// topics it arrived on, and the raw payload.
    Message { source: u64, id: u64, topics: Vec<GossipTopic>, data: Vec<u8> },
    /// A peer confirmed a subscription to a topic.
    Subscribed { peer: u64, topic: GossipTopic },
    /// A peer dropped a subscription.
    Unsubscribed { peer: u64, topic: GossipTopic },
}

/// An event delivered by the identify engine.
#[derive(Debug, PartialEq, Eq)]
pub enum IdentifyEvent {
    Received { peer: u64, info: IdentifyInfo },
    Sent { peer: u64 },
    Error { peer: u64 },
}

/// An event surfaced by the discovery engine. Discovery hands out peer
/// records through direct queries, so these carry nothing to act on.
#[derive(Debug, PartialEq, Eq)]
pub enum DiscoveryEvent {
    Discovered(u64),
    SocketUpdated(u64),
    Other,
}

/// A directive drained from the peer manager.
#[derive(Debug, PartialEq, Eq)]
pub enum PmDirective {
    /// Ask the application to run a status exchange with the peer.
    Status(u64),
    /// Send the peer a ping.
    Ping(u64),
    /// Request the peer's metadata.
    MetaData(u64),
    /// Reserved: disconnect the peer. Not acted on.
    DisconnectPeer(u64),
    /// Reserved: ban the peer. Not acted on.
    BanPeer(u64),
}

/// Direction of a newly established connection.
#[derive(Debug, Clone, Copy, PartialEq, Eq, Structural)]
pub enum ConnectionDirection {
    Outgoing,
    Incoming,
}

/// Outcome of looking up a connecting peer's discovery record.
#[derive(Debug, Clone, Copy, PartialEq, Eq, Structural)]
pub enum PeerRecordBitfield {
    /// Discovery holds no record for the peer.
    NoRecord,
    /// The record exists but its subnet bitfield does not decode.
    Invalid,
    /// The record's subnet bitfield.
    Valid(u64),
}

/// An application-level event surfaced by the coordinator.
#[derive(Debug, PartialEq, Eq)]
pub enum BehaviourEvent {
    /// An RPC event to be handled by the application, with its peer.
    RPC(u64, RpcEvent),
    /// A first-sighted, successfully decoded gossip delivery.
    PubsubMessage { id: u64, source: u64, topics: Vec<GossipTopic>, message: PubsubMessage },
    /// A peer subscribed to a topic.
    PeerSubscribed(u64, GossipTopic),
    /// The application should run a status exchange with this peer.
    StatusPeer(u64),
}

/// A command the coordinator wants performed against an engine or reported
/// to the peer manager.
#[derive(Debug, PartialEq, Eq)]
pub enum Action {
    /// Subscribe the gossip engine to the topic.
    GossipSubscribe(GossipTopic),
    /// Unsubscribe the gossip engine from the topic.
    GossipUnsubscribe(GossipTopic),
    /// Publish an encoded payload on the topic.
    GossipPublish(GossipTopic, Vec<u8>),
    /// Propagate a validated delivery `(delivery id, source peer)`.
    GossipPropagate(u64, u64),
    /// Send an RPC event to the peer.
    SendRpc(u64, RpcEvent),
    /// Write the fork id into the local discovery record.
    DiscoveryUpdateForkId(EnrForkId),
    /// Flip one subnet bit in the local discovery record.
    DiscoveryUpdateSubnet(u64, bool),
    /// Tell discovery the peer was banned.
    DiscoveryBan(u64),
    /// Tell discovery the peer was unbanned.
    DiscoveryUnban(u64),
    /// Add a peer record to the discovery routing table.
    DiscoveryAddRecord(u64),
    /// Ask discovery to search for peers on the subnet.
    DiscoveryPeersRequest(u64),
    /// Tell the peer manager an outgoing connection was established.
    PmConnectOutgoing(u64),
    /// Tell the peer manager an incoming connection was established.
    PmConnectIncoming(u64),
    /// Tell the peer manager the peer disconnected.
    PmDisconnect(u64),
    /// Tell the peer manager the peer sent a ping with this sequence number.
    PmPingRequest(u64, u64),
    /// Tell the peer manager the peer answered a ping with this sequence
    /// number.
    PmPongResponse(u64, u64),
    /// Hand the peer's metadata response to the peer manager.
    PmMetaDataResponse(u64, MetaData),
    /// Tell the peer manager the peer completed a status exchange.
    PmStatus(u64),
    /// Report an RPC protocol error `(peer, protocol id, error detail)`.
    PmRpcError(u64, u64, u64),
    /// Hand identify results to the peer manager.
    PmIdentify(u64, IdentifyInfo),
    /// Seed the shared peer table with placeholder metadata decoded from
    /// the peer's discovery record.
    SeedPeerMetaData(u64, MetaData),
}

} // verus!
