//! Network behaviour coordinator.
//!
//! A single-threaded state machine owning the node-side state of the gossip,
//! RPC, identify and discovery engines: it consumes their events as plain
//! values, applies the translation rules (inline ping/metadata handling,
//! gossip deduplication, address-list truncation), manages the fork-bound
//! topic subscription set, and surfaces at most one application event per
//! poll. Commands for the engines and notifications for the peer manager
//! are queued as [`Action`] values for the surrounding runtime to perform.

use vstd::prelude::*;

use crate::dedup::DedupCache;
use crate::types::Action;
use crate::types::BehaviourEvent;
use crate::types::ConnectionDirection;
use crate::types::DiscoveryEvent;
use crate::types::EnrForkId;
use crate::types::GossipEncoding;
use crate::types::GossipEvent;
use crate::types::GossipKind;
use crate::types::GossipTopic;
use crate::types::IdentifyEvent;
use crate::types::IdentifyInfo;
use crate::types::MetaData;
use crate::types::PeerRecordBitfield;
use crate::types::PmDirective;
use crate::types::PubsubMessage;
use crate::types::RpcEvent;
use crate::types::RpcRequest;
use crate::types::RpcResponse;

verus! {

/// Capacity of the gossip deduplication set.
pub const GOSSIP_DEDUP_CACHE_CAPACITY: usize = 100000;

/// Advertised peer address lists are cut to this many entries before they
/// reach the peer manager.
pub const MAX_IDENTIFY_ADDRESSES: usize = 10;

/// The network behaviour coordinator.
pub struct Behaviour {
    /// Topics currently subscribed; mirrors both the shared globals entry
    /// and the gossip engine's own subscription set, which evolve in lock
    /// step with it.
    pub subscriptions: Vec<GossipTopic>,
    /// The node's metadata served in ping and metadata exchanges.
    pub meta_data: MetaData,
    /// The subnet bitfield of the local discovery record.
    pub local_attnets: u64,
    /// Recently seen gossip delivery ids.
    pub seen_gossip_messages: DedupCache,
    /// Application events awaiting the poll loop, oldest first.
    pub events: Vec<BehaviourEvent>,
    /// Commands awaiting the runtime, oldest first.
    pub actions: Vec<Action>,
    /// The active fork id.
    pub enr_fork_id: EnrForkId,
}

impl Behaviour {
    /// The topic is in the current subscription set.
    pub open spec fn subscribed(&self, topic: GossipTopic) -> bool {
        self.subscriptions@.contains(topic)
    }

    /// Subscriptions are pairwise distinct and all bound to the digest of
    /// the active fork; the dedup set is well formed.
    pub open spec fn wf(&self) -> bool {
        &&& self.seen_gossip_messages.wf()
        &&& self.seen_gossip_messages.capacity == GOSSIP_DEDUP_CACHE_CAPACITY
        &&& forall|i: int, j: int|
            0 <= i < j < self.subscriptions@.len() ==> self.subscriptions@[i]
                != self.subscriptions@[j]
        &&& forall|i: int|
            0 <= i < self.subscriptions@.len() ==> (#[trigger] self.subscriptions@[i]).fork_digest
                == self.enr_fork_id.fork_digest
    }

    /// All fields other than the subscription set and the two outbound
    /// queues agree.
    pub open spec fn same_node_state(pre: Self, post: Self) -> bool {
        &&& post.meta_data == pre.meta_data
        &&& post.local_attnets == pre.local_attnets
        &&& post.seen_gossip_messages == pre.seen_gossip_messages
        &&& post.enr_fork_id == pre.enr_fork_id
    }

    /// The call only appended `action` to the command queue.
    pub open spec fn pushed_action(pre: Self, post: Self, action: Action) -> bool {
        &&& post.actions@ == pre.actions@.push(action)
        &&& post.events@ == pre.events@
        &&& post.subscriptions@ == pre.subscriptions@
        &&& Self::same_node_state(pre, post)
    }

    /// Builds a coordinator for a node whose discovery record advertises
    /// `local_attnets` under the fork `enr_fork_id`.
    pub fn new(local_attnets: u64, enr_fork_id: EnrForkId) -> (r: Self)
        ensures
            r.wf(),
            r.subscriptions@.len() == 0,
            r.meta_data == (MetaData { seq_number: 1, attnets: local_attnets }),
            r.local_attnets == local_attnets,
            r.seen_gossip_messages.entries@.len() == 0,
            r.events@.len() == 0,
            r.actions@.len() == 0,
            r.enr_fork_id == enr_fork_id,
    {
        Behaviour {
            subscriptions: Vec::new(),
            meta_data: MetaData { seq_number: 1, attnets: local_attnets },
            local_attnets,
            seen_gossip_messages: DedupCache::new(GOSSIP_DEDUP_CACHE_CAPACITY),
            events: Vec::new(),
            actions: Vec::new(),
            enr_fork_id,
        }
    }

    /// State change of a subscription: the topic joined the set unless it
    /// was already there, the engine was told either way, and the call
    /// reported whether the engine's state changed.
    pub open spec fn subscribe_post(pre: Self, post: Self, topic: GossipTopic, r: bool) -> bool {
        &&& r == !pre.subscribed(topic)
        &&& post.subscriptions@ == if pre.subscribed(topic) {
            pre.subscriptions@
        } else {
            pre.subscriptions@.push(topic)
        }
        &&& post.actions@ == pre.actions@.push(Action::GossipSubscribe(topic))
        &&& post.events@ == pre.events@
        &&& Self::same_node_state(pre, post)
    }

    /// State change of an unsubscription: the topic left the set if it was
    /// there, the engine was told either way.
    pub open spec fn unsubscribe_post(pre: Self, post: Self, topic: GossipTopic, r: bool) -> bool {
        &&& r == pre.subscribed(topic)
        &&& forall|t: GossipTopic| #[trigger]
            post.subscribed(t) <==> (pre.subscribed(t) && t != topic)
        &&& post.subscriptions@.len() == pre.subscriptions@.len() - (if pre.subscribed(topic) {
            1int
        } else {
            0int
        })
        &&& post.actions@ == pre.actions@.push(Action::GossipUnsubscribe(topic))
        &&& post.events@ == pre.events@
        &&& Self::same_node_state(pre, post)
    }

    /// Subscribes to a gossip topic, updating the shared subscription set
    /// and forwarding to the gossip engine; returns whether the engine's
    /// state changed.
    fn subscribe(&mut self, topic: GossipTopic) -> (r: bool)
        requires
            old(self).wf(),
            topic.fork_digest == old(self).enr_fork_id.fork_digest,
        ensures
            final(self).wf(),
            Self::subscribe_post(*old(self), *final(self), topic, r),
    {
        let fresh = !self.contains_subscription(&topic);
        if fresh {
            self.subscriptions.push(topic);
        }
        self.actions.push(Action::GossipSubscribe(topic));
        fresh
    }

    /// Unsubscribes from a gossip topic, updating the shared subscription
    /// set and forwarding to the gossip engine; returns whether the
    /// engine's state changed.
    fn unsubscribe(&mut self, topic: GossipTopic) -> (r: bool)
        requires
            old(self).wf(),
        ensures
            final(self).wf(),
            Self::unsubscribe_post(*old(self), *final(self), topic, r),
    {
        let position = self.find_subscription(&topic);
        let found = position.is_some();
        if let Some(i) = position {
            let ghost pres = self.subscriptions@;
            let _ = self.subscriptions.remove(i);
            proof {
                assert(pres.contains(topic)) by {
                    assert(pres[i as int] == topic);
                }
                assert forall|t: GossipTopic| #[trigger]
                    self.subscriptions@.contains(t) <==> (pres.contains(t) && t != topic) by {
                    if self.subscriptions@.contains(t) {
                        let j = choose|j: int|
                            0 <= j < self.subscriptions@.len() && self.subscriptions@[j] == t;
                        if j < i {
                            assert(pres[j] == t);
                        } else {
                            assert(pres[j + 1] == t);
                        }
                        assert(t != topic);
                    }
                    if pres.contains(t) && t != topic {
                        let j = choose|j: int| 0 <= j < pres.len() && pres[j] == t;
                        assert(j != i);
                        if j < i {
                            assert(self.subscriptions@[j] == t);
                        } else {
                            assert(self.subscriptions@[j - 1] == t);
                        }
                    }
                }
            }
        } else {
            proof {
                if self.subscriptions@.contains(topic) {
                    let j = choose|j: int|
                        0 <= j < self.subscriptions@.len() && self.subscriptions@[j] == topic;
                    assert(false);
                }
                assert forall|t: GossipTopic| #[trigger]
                    self.subscriptions@.contains(t) <==> (self.subscriptions@.contains(t) && t
                        != topic) by {
                    if self.subscriptions@.contains(t) && t == topic {
                        assert(false);
                    }
                }
            }
        }
        self.actions.push(Action::GossipUnsubscribe(topic));
        found
    }

    /// Whether the topic is currently in the subscription set.
    fn contains_subscription(&self, topic: &GossipTopic) -> (r: bool)
        ensures
            r == self.subscribed(*topic),
    {
        self.find_subscription(topic).is_some()
    }

    /// The position of the topic in the subscription set, if any.
    fn find_subscription(&self, topic: &GossipTopic) -> (r: Option<usize>)
        ensures
            match r {
                Some(i) => i < self.subscriptions@.len() && self.subscriptions@[i as int]
                    == *topic,
                None => !self.subscribed(*topic),
            },
    {
        let mut i: usize = 0;
        while i < self.subscriptions.len()
            invariant
                i <= self.subscriptions@.len(),
                forall|j: int| 0 <= j < i ==> self.subscriptions@[j] != *topic,
            decreases self.subscriptions@.len() - i,
        {
            if self.subscriptions[i] == *topic {
                return Some(i);
            }
            i += 1;
        }
        proof {
            if self.subscriptions@.contains(*topic) {
                let j = choose|j: int|
                    0 <= j < self.subscriptions@.len() && self.subscriptions@[j] == *topic;
                assert(false);
            }
        }
        None
    }

    /// Subscribes to a topic kind under the default encoding and the
    /// active fork digest.
    pub fn subscribe_kind(&mut self, kind: GossipKind) -> (r: bool)
        requires
            old(self).wf(),
        ensures
            final(self).wf(),
            Self::subscribe_post(
                *old(self),
                *final(self),
                GossipTopic {
                    kind,
                    encoding: GossipEncoding::Ssz,
                    fork_digest: old(self).enr_fork_id.fork_digest,
                },
                r,
            ),
    {
        let topic = GossipTopic::new(
            kind,
            GossipEncoding::default(),
            self.enr_fork_id.fork_digest,
        );
        self.subscribe(topic)
    }

    /// Unsubscribes from a topic kind under the default encoding and the
    /// active fork digest.
    pub fn unsubscribe_kind(&mut self, kind: GossipKind) -> (r: bool)
        requires
            old(self).wf(),
        ensures
            final(self).wf(),
            Self::unsubscribe_post(
                *old(self),
                *final(self),
                GossipTopic {
                    kind,
                    encoding: GossipEncoding::Ssz,
                    fork_digest: old(self).enr_fork_id.fork_digest,
                },
                r,
            ),
    {
        let topic = GossipTopic::new(
            kind,
            GossipEncoding::default(),
            self.enr_fork_id.fork_digest,
        );
        self.unsubscribe(topic)
    }

    /// Subscribes to the attestation topic of one subnet.
    pub fn subscribe_to_subnet(&mut self, subnet_id: u64) -> (r: bool)
        requires
            old(self).wf(),
        ensures
            final(self).wf(),
            Self::subscribe_post(
                *old(self),
                *final(self),
                GossipTopic {
                    kind: GossipKind::Attestation(subnet_id),
                    encoding: GossipEncoding::Ssz,
                    fork_digest: old(self).enr_fork_id.fork_digest,
                },
                r,
            ),
    {
        let topic = GossipTopic::new(
            GossipKind::Attestation(subnet_id),
            GossipEncoding::default(),
            self.enr_fork_id.fork_digest,
        );
        self.subscribe(topic)
    }

    /// Unsubscribes from the attestation topic of one subnet.
    pub fn unsubscribe_from_subnet(&mut self, subnet_id: u64) -> (r: bool)
        requires
            old(self).wf(),
        ensures
            final(self).wf(),
            Self::unsubscribe_post(
                *old(self),
                *final(self),
                GossipTopic {
                    kind: GossipKind::Attestation(subnet_id),
                    encoding: GossipEncoding::Ssz,
                    fork_digest: old(self).enr_fork_id.fork_digest,
                },
                r,
            ),
    {
        let topic = GossipTopic::new(
            GossipKind::Attestation(subnet_id),
            GossipEncoding::default(),
            self.enr_fork_id.fork_digest,
        );
        self.unsubscribe(topic)
    }

    /// Forwards an RPC request or response to the RPC engine.
    pub fn send_rpc(&mut self, peer_id: u64, rpc_event: RpcEvent)
        requires
            old(self).wf(),
        ensures
            final(self).wf(),
            Self::pushed_action(*old(self), *final(self), Action::SendRpc(peer_id, rpc_event)),
    {
        self.actions.push(Action::SendRpc(peer_id, rpc_event));
    }

    /// Asks the gossip engine to propagate a validated delivery onward.
    pub fn propagate_message(&mut self, propagation_source: u64, message_id: u64)
        requires
            old(self).wf(),
        ensures
            final(self).wf(),
            Self::pushed_action(
                *old(self),
                *final(self),
                Action::GossipPropagate(message_id, propagation_source),
            ),
    {
        self.actions.push(Action::GossipPropagate(message_id, propagation_source));
    }

    /// Tells discovery the peer was banned.
    pub fn peer_banned(&mut self, peer_id: u64)
        requires
            old(self).wf(),
        ensures
            final(self).wf(),
            Self::pushed_action(*old(self), *final(self), Action::DiscoveryBan(peer_id)),
    {
        self.actions.push(Action::DiscoveryBan(peer_id));
    }

    /// Tells discovery the peer was unbanned.
    pub fn peer_unbanned(&mut self, peer_id: u64)
        requires
            old(self).wf(),
        ensures
            final(self).wf(),
            Self::pushed_action(*old(self), *final(self), Action::DiscoveryUnban(peer_id)),
    {
        self.actions.push(Action::DiscoveryUnban(peer_id));
    }

    /// Adds a peer record to discovery's routing table.
    pub fn add_enr(&mut self, enr: u64)
        requires
            old(self).wf(),
        ensures
            final(self).wf(),
            Self::pushed_action(*old(self), *final(self), Action::DiscoveryAddRecord(enr)),
    {
        self.actions.push(Action::DiscoveryAddRecord(enr));
    }

    /// Asks discovery to search for peers on a long-lived subnet.
    pub fn peers_request(&mut self, subnet_id: u64)
        requires
            old(self).wf(),
        ensures
            final(self).wf(),
            Self::pushed_action(*old(self), *final(self), Action::DiscoveryPeersRequest(subnet_id)),
    {
        self.actions.push(Action::DiscoveryPeersRequest(subnet_id));
    }

    /// Tells the peer manager a peer disconnected.
    pub fn notify_peer_disconnect(&mut self, peer_id: u64)
        requires
            old(self).wf(),
        ensures
            final(self).wf(),
            Self::pushed_action(*old(self), *final(self), Action::PmDisconnect(peer_id)),
    {
        self.actions.push(Action::PmDisconnect(peer_id));
    }

    /// Hands the command queue to the runtime, leaving it empty.
    pub fn take_actions(&mut self) -> (r: Vec<Action>)
        requires
            old(self).wf(),
        ensures
            final(self).wf(),
            r@ == old(self).actions@,
            final(self).actions@.len() == 0,
            final(self).events@ == old(self).events@,
            final(self).subscriptions@ == old(self).subscriptions@,
            Self::same_node_state(*old(self), *final(self)),
    {
        let mut out: Vec<Action> = Vec::new();
        core::mem::swap(&mut out, &mut self.actions);
        out
    }
}

/// The local record bitfield with subnet bit `i` set to `v`.
pub open spec fn with_bit(bits: u64, i: u64, v: bool) -> u64
    recommends
        i < 64,
{
    if v {
        bits | (1u64 << i)
    } else {
        bits & !(1u64 << i)
    }
}

impl Behaviour {
    /// The gossip topic a message is published on under `digest`.
    pub open spec fn publish_topic(message: PubsubMessage, digest: u64) -> GossipTopic {
        GossipTopic {
            kind: message.kind_spec(),
            encoding: GossipEncoding::Ssz,
            fork_digest: digest,
        }
    }

    /// The engine commands publishing a batch produces, in order.
    pub open spec fn publish_actions(messages: Seq<PubsubMessage>, digest: u64) -> Seq<Action>
        decreases messages.len(),
    {
        if messages.len() == 0 {
            Seq::empty()
        } else {
            Self::publish_actions(messages.drop_last(), digest).push(
                Action::GossipPublish(
                    Self::publish_topic(messages.last(), digest),
                    messages.last().payload_vec(),
                ),
            )
        }
    }

    /// Publishes a batch of messages: each is encoded and handed to the
    /// gossip engine on its topic under the active fork digest, in order.
    pub fn publish(&mut self, messages: Vec<PubsubMessage>)
        requires
            old(self).wf(),
        ensures
            final(self).wf(),
            final(self).actions@ == old(self).actions@ + Self::publish_actions(
                messages@,
                old(self).enr_fork_id.fork_digest,
            ),
            final(self).events@ == old(self).events@,
            final(self).subscriptions@ == old(self).subscriptions@,
            Self::same_node_state(*old(self), *final(self)),
    {
        let ghost all = messages@;
        let ghost digest = self.enr_fork_id.fork_digest;
        let mut rest = messages;
        while rest.len() > 0
            invariant
                self.wf(),
                digest == self.enr_fork_id.fork_digest,
                all == all.subrange(0, all.len() - rest@.len()) + rest@,
                rest@.len() <= all.len(),
                self.actions@ == old(self).actions@ + Self::publish_actions(
                    all.subrange(0, all.len() - rest@.len()),
                    digest,
                ),
                self.events@ == old(self).events@,
                self.subscriptions@ == old(self).subscriptions@,
                Self::same_node_state(*old(self), *self),
            decreases rest@.len(),
        {
            let ghost done = all.subrange(0, all.len() - rest@.len());
            let message = rest.remove(0);
            let kind = message.kind();
            let topic = GossipTopic::new(kind, GossipEncoding::default(), self.enr_fork_id.fork_digest);
            let ghost m = message;
            let payload = message.into_payload();
            self.actions.push(Action::GossipPublish(topic, payload));
            proof {
                let done2 = all.subrange(0, all.len() - rest@.len());
                assert(done2 =~= done.push(m));
                assert(done2.drop_last() =~= done);
                assert(all == done2 + rest@) by {
                    assert(all =~= done2 + rest@);
                }
                assert(payload@ == m.payload_spec());
                assert(Action::GossipPublish(topic, payload) == Action::GossipPublish(
                    Self::publish_topic(m, digest),
                    m.payload_vec(),
                )) by {
                    assert(payload == m.payload_vec());
                }
                assert(Self::publish_actions(done2, digest) == Self::publish_actions(
                    done,
                    digest,
                ).push(Action::GossipPublish(Self::publish_topic(m, digest), m.payload_vec())));
            }
        }
        proof {
            assert(all.subrange(0, all.len() as int) =~= all);
        }
    }

    /// Asks discovery to flip one subnet bit in the local record, then
    /// bumps the metadata sequence number and re-reads the bitfield from
    /// the (possibly unchanged) record. `flip_ok` tells whether the record
    /// update succeeded; on failure the record keeps its old bitfield and
    /// the failure is otherwise ignored.
    pub fn update_enr_subnet(&mut self, subnet_id: u64, value: bool, flip_ok: bool)
        requires
            old(self).wf(),
            subnet_id < 64,
            old(self).meta_data.seq_number < u64::MAX,
        ensures
            final(self).wf(),
            final(self).local_attnets == if flip_ok {
                with_bit(old(self).local_attnets, subnet_id, value)
            } else {
                old(self).local_attnets
            },
            final(self).meta_data.seq_number == old(self).meta_data.seq_number + 1,
            final(self).meta_data.attnets == final(self).local_attnets,
            final(self).actions@ == old(self).actions@.push(
                Action::DiscoveryUpdateSubnet(subnet_id, value),
            ),
            final(self).events@ == old(self).events@,
            final(self).subscriptions@ == old(self).subscriptions@,
            final(self).seen_gossip_messages == old(self).seen_gossip_messages,
            final(self).enr_fork_id == old(self).enr_fork_id,
    {
        self.actions.push(Action::DiscoveryUpdateSubnet(subnet_id, value));
        if flip_ok {
            if value {
                self.local_attnets = self.local_attnets | (1u64 << subnet_id);
            } else {
                self.local_attnets = self.local_attnets & !(1u64 << subnet_id);
            }
        }
        // metadata is refreshed even when the record update failed
        self.meta_data = MetaData {
            seq_number: self.meta_data.seq_number + 1,
            attnets: self.local_attnets,
        };
    }

    /// The engine commands that unsubscribe a topic list, in order.
    pub open spec fn unsubscribe_actions(topics: Seq<GossipTopic>) -> Seq<Action>
        decreases topics.len(),
    {
        if topics.len() == 0 {
            Seq::empty()
        } else {
            Self::unsubscribe_actions(topics.drop_last()).push(
                Action::GossipUnsubscribe(topics.last()),
            )
        }
    }

    /// The engine commands that subscribe a topic list, in order.
    pub open spec fn subscribe_actions(topics: Seq<GossipTopic>) -> Seq<Action>
        decreases topics.len(),
    {
        if topics.len() == 0 {
            Seq::empty()
        } else {
            Self::subscribe_actions(topics.drop_last()).push(
                Action::GossipSubscribe(topics.last()),
            )
        }
    }

    /// State change of a fork-version update: the new id went to discovery,
    /// every previously subscribed topic was unsubscribed and re-subscribed
    /// with its digest rewritten to the new fork's, and the stored fork id
    /// was replaced.
    pub open spec fn update_fork_post(pre: Self, post: Self, id: EnrForkId) -> bool {
        &&& post.subscriptions@.len() == pre.subscriptions@.len()
        &&& forall|i: int|
            0 <= i < pre.subscriptions@.len() ==> (#[trigger] post.subscriptions@[i])
                == pre.subscriptions@[i].with_digest(id.fork_digest)
        &&& post.enr_fork_id == id
        &&& post.actions@ == pre.actions@.push(Action::DiscoveryUpdateForkId(id))
            + Self::unsubscribe_actions(pre.subscriptions@) + Self::subscribe_actions(
            post.subscriptions@,
        )
        &&& post.events@ == pre.events@
        &&& post.meta_data == pre.meta_data
        &&& post.local_attnets == pre.local_attnets
        &&& post.seen_gossip_messages == pre.seen_gossip_messages
    }

    /// Pushes the new fork id into the local discovery record, then
    /// re-binds every subscribed topic to the new fork digest: all topics
    /// are unsubscribed, rewritten, and subscribed again.
    pub fn update_fork_version(&mut self, enr_fork_id: EnrForkId)
        requires
            old(self).wf(),
        ensures
            final(self).wf(),
            Self::update_fork_post(*old(self), *final(self), enr_fork_id),
    {
        self.actions.push(Action::DiscoveryUpdateForkId(enr_fork_id));
        let ghost pres = self.subscriptions@;
        let ghost base = self.actions@;
        // unsubscribe from every current topic, remembering the snapshot
        let mut snapshot: Vec<GossipTopic> = Vec::new();
        while self.subscriptions.len() > 0
            invariant
                snapshot@ + self.subscriptions@ == pres,
                self.actions@ == base + Self::unsubscribe_actions(snapshot@),
                self.events@ == old(self).events@,
                Self::same_node_state(*old(self), *self),
            decreases self.subscriptions@.len(),
        {
            let ghost done = snapshot@;
            let t = self.subscriptions.remove(0);
            self.actions.push(Action::GossipUnsubscribe(t));
            snapshot.push(t);
            proof {
                assert(snapshot@.drop_last() =~= done);
                assert(snapshot@ + self.subscriptions@ =~= pres);
            }
        }
        proof {
            assert(snapshot@ =~= pres);
        }
        // re-subscribe under the new digest
        let ghost base2 = self.actions@;
        let mut rest = snapshot;
        while rest.len() > 0
            invariant
                pres.len() == self.subscriptions@.len() + rest@.len(),
                forall|i: int|
                    0 <= i < self.subscriptions@.len() ==> (#[trigger] self.subscriptions@[i])
                        == pres[i].with_digest(enr_fork_id.fork_digest),
                forall|i: int|
                    0 <= i < rest@.len() ==> #[trigger] rest@[i] == pres[i
                        + self.subscriptions@.len()],
                self.actions@ == base2 + Self::subscribe_actions(self.subscriptions@),
                self.events@ == old(self).events@,
                Self::same_node_state(*old(self), *self),
            decreases rest@.len(),
        {
            let ghost done = self.subscriptions@;
            let t = rest.remove(0);
            let nt = GossipTopic {
                kind: t.kind,
                encoding: t.encoding,
                fork_digest: enr_fork_id.fork_digest,
            };
            self.subscriptions.push(nt);
            self.actions.push(Action::GossipSubscribe(nt));
            proof {
                assert(self.subscriptions@.drop_last() =~= done);
            }
        }
        self.enr_fork_id = enr_fork_id;
        proof {
            // distinct old topics share the old digest, so they differ in
            // kind or encoding, and rewriting the digest keeps them apart
            assert forall|i: int, j: int|
                0 <= i < j < self.subscriptions@.len() implies self.subscriptions@[i]
                != self.subscriptions@[j] by {
                assert(pres[i] != pres[j]);
                assert(pres[i].fork_digest == pres[j].fork_digest);
            }
        }
    }

    /// The notifications a new connection produces: the peer manager learns
    /// of the connection, and when the peer's discovery record carries a
    /// decodable subnet bitfield, the shared peer table is seeded with
    /// placeholder metadata (sequence number zero) until a real metadata
    /// exchange supersedes it.
    pub open spec fn connect_actions(
        peer_id: u64,
        direction: ConnectionDirection,
        record: PeerRecordBitfield,
    ) -> Seq<Action> {
        let connect = match direction {
            ConnectionDirection::Outgoing => Action::PmConnectOutgoing(peer_id),
            ConnectionDirection::Incoming => Action::PmConnectIncoming(peer_id),
        };
        match record {
            PeerRecordBitfield::Valid(bits) => seq![connect].push(
                Action::SeedPeerMetaData(peer_id, MetaData { seq_number: 0, attnets: bits }),
            ),
            _ => seq![connect],
        }
    }

    /// Records a new connection. `record` is the outcome of looking the
    /// peer up in discovery; an absent record or an undecodable bitfield
    /// only skips the metadata seeding.
    pub fn notify_peer_connect(
        &mut self,
        peer_id: u64,
        direction: ConnectionDirection,
        record: PeerRecordBitfield,
    )
        requires
            old(self).wf(),
        ensures
            final(self).wf(),
            final(self).actions@ == old(self).actions@ + Self::connect_actions(
                peer_id,
                direction,
                record,
            ),
            final(self).events@ == old(self).events@,
            final(self).subscriptions@ == old(self).subscriptions@,
            Self::same_node_state(*old(self), *final(self)),
    {
        let ghost base = self.actions@;
        match direction {
            ConnectionDirection::Outgoing => {
                self.actions.push(Action::PmConnectOutgoing(peer_id));
            },
            ConnectionDirection::Incoming => {
                self.actions.push(Action::PmConnectIncoming(peer_id));
            },
        }
        if let PeerRecordBitfield::Valid(bits) = record {
            self.actions.push(
                Action::SeedPeerMetaData(peer_id, MetaData { seq_number: 0, attnets: bits }),
            );
        }
        proof {
            assert(self.actions@ =~= base + Self::connect_actions(peer_id, direction, record));
        }
    }
}

impl Behaviour {
    /// The pushed application event for a first-sighted, decoded delivery.
    pub open spec fn is_delivery_event(
        ev: BehaviourEvent,
        source: u64,
        id: u64,
        topics: Seq<GossipTopic>,
        data: Seq<u8>,
    ) -> bool {
        &&& ev matches BehaviourEvent::PubsubMessage { id: i, source: s, topics: t, message: m }
            && i == id && s == source && t@ == topics && m.is_decoding_of(topics, data)
    }

    /// State change of one gossip delivery: the delivery id is recorded,
    /// and exactly when it is a first sighting that decodes, one delivery
    /// event is appended; a repeat sighting or an undecodable payload adds
    /// nothing.
    pub open spec fn gossip_message_post(
        pre: Self,
        post: Self,
        source: u64,
        id: u64,
        topics: Seq<GossipTopic>,
        data: Seq<u8>,
    ) -> bool {
        &&& post.seen_gossip_messages.holds(id)
        &&& forall|x: u64|
            x != id ==> (post.seen_gossip_messages.holds(x)
                ==> pre.seen_gossip_messages.holds(x))
        &&& if !pre.seen_gossip_messages.holds(id) && PubsubMessage::decodes(topics) {
            &&& post.events@.len() == pre.events@.len() + 1
            &&& post.events@.subrange(0, pre.events@.len() as int) == pre.events@
            &&& Self::is_delivery_event(post.events@.last(), source, id, topics, data)
        } else {
            post.events@ == pre.events@
        }
        &&& post.actions@ == pre.actions@
        &&& post.subscriptions@ == pre.subscriptions@
        &&& post.meta_data == pre.meta_data
        &&& post.local_attnets == pre.local_attnets
        &&& post.enr_fork_id == pre.enr_fork_id
        &&& post.seen_gossip_messages.capacity == pre.seen_gossip_messages.capacity
    }

    /// Applies one gossip engine event: deliveries are deduplicated by
    /// their id and surfaced as application events when first sighted and
    /// decodable; subscription confirmations are surfaced directly;
    /// unsubscription confirmations are dropped.
    pub fn handle_gossip_event(&mut self, event: GossipEvent)
        requires
            old(self).wf(),
        ensures
            final(self).wf(),
            match event {
                GossipEvent::Message { source, id, topics, data } => Self::gossip_message_post(
                    *old(self),
                    *final(self),
                    source,
                    id,
                    topics@,
                    data@,
                ),
                GossipEvent::Subscribed { peer, topic } => {
                    &&& final(self).events@ == old(self).events@.push(
                        BehaviourEvent::PeerSubscribed(peer, topic),
                    )
                    &&& final(self).actions@ == old(self).actions@
                    &&& final(self).subscriptions@ == old(self).subscriptions@
                    &&& Self::same_node_state(*old(self), *final(self))
                },
                GossipEvent::Unsubscribed { .. } => *final(self) == *old(self),
            },
    {
        match event {
            GossipEvent::Message { source, id, topics, data } => {
                let fresh = self.seen_gossip_messages.insert(id);
                if fresh {
                    // first sighting: decode by topic and surface it;
                    // an undecodable payload is dropped
                    match PubsubMessage::decode(&topics, data) {
                        Some(message) => {
                            self.events.push(
                                BehaviourEvent::PubsubMessage { id, source, topics, message },
                            );
                            proof {
                                assert(self.events@.subrange(0, old(self).events@.len() as int)
                                    =~= old(self).events@);
                            }
                        },
                        None => {},
                    }
                }
                // a repeat sighting is never surfaced again
            },
            GossipEvent::Subscribed { peer, topic } => {
                self.events.push(BehaviourEvent::PeerSubscribed(peer, topic));
            },
            GossipEvent::Unsubscribed { .. } => {},
        }
    }

    /// Whether an RPC event is surfaced to the application: ping, pong and
    /// metadata exchanges are answered inline and never propagated; all
    /// other requests, responses and errors go upward.
    pub open spec fn rpc_goes_upward(event: RpcEvent) -> bool {
        match event {
            RpcEvent::Request(_, RpcRequest::Ping(_)) => false,
            RpcEvent::Request(_, RpcRequest::MetaData) => false,
            RpcEvent::Response(_, RpcResponse::Pong(_)) => false,
            RpcEvent::Response(_, RpcResponse::MetaData(_)) => false,
            _ => true,
        }
    }

    /// The commands one inbound RPC event produces, given the node's
    /// current metadata: inline pong and metadata replies, and the peer
    /// manager's bookkeeping notifications.
    pub open spec fn rpc_actions(peer_id: u64, event: RpcEvent, md: MetaData) -> Seq<Action> {
        match event {
            RpcEvent::Request(id, RpcRequest::Ping(s)) => seq![
                Action::PmPingRequest(peer_id, s),
                Action::SendRpc(peer_id, RpcEvent::Response(id, RpcResponse::Pong(md.seq_number))),
            ],
            RpcEvent::Request(id, RpcRequest::MetaData) => seq![
                Action::SendRpc(peer_id, RpcEvent::Response(id, RpcResponse::MetaData(md))),
            ],
            RpcEvent::Response(_, RpcResponse::Pong(s)) => seq![
                Action::PmPongResponse(peer_id, s),
            ],
            RpcEvent::Response(_, RpcResponse::MetaData(m)) => seq![
                Action::PmMetaDataResponse(peer_id, m),
            ],
            RpcEvent::Request(_, RpcRequest::Status(_)) => seq![Action::PmStatus(peer_id)],
            RpcEvent::Response(_, RpcResponse::Status(_)) => seq![Action::PmStatus(peer_id)],
            RpcEvent::Error(_, protocol, detail) => seq![
                Action::PmRpcError(peer_id, protocol, detail),
            ],
            _ => Seq::empty(),
        }
    }

    /// State change of one inbound RPC event: the produced commands are
    /// appended, and the event itself is appended to the application queue
    /// exactly when it goes upward.
    pub open spec fn rpc_post(pre: Self, post: Self, peer_id: u64, event: RpcEvent) -> bool {
        &&& post.events@ == pre.events@ + if Self::rpc_goes_upward(event) {
            seq![BehaviourEvent::RPC(peer_id, event)]
        } else {
            Seq::empty()
        }
        &&& post.actions@ == pre.actions@ + Self::rpc_actions(peer_id, event, pre.meta_data)
        &&& post.subscriptions@ == pre.subscriptions@
        &&& Self::same_node_state(pre, post)
    }

    /// Applies one inbound RPC event per the translation rules: pings are
    /// answered with a pong carrying the current sequence number, metadata
    /// requests with the current metadata; pong and metadata responses go
    /// to the peer manager only; status exchanges and protocol errors go to
    /// the peer manager and upward; everything else goes upward unchanged.
    pub fn handle_rpc_event(&mut self, peer_id: u64, event: RpcEvent)
        requires
            old(self).wf(),
        ensures
            final(self).wf(),
            Self::rpc_post(*old(self), *final(self), peer_id, event),
    {
        let ghost base_e = self.events@;
        let ghost base_a = self.actions@;
        match event {
            RpcEvent::Request(id, RpcRequest::Ping(s)) => {
                self.actions.push(Action::PmPingRequest(peer_id, s));
                self.actions.push(
                    Action::SendRpc(
                        peer_id,
                        RpcEvent::Response(id, RpcResponse::Pong(self.meta_data.seq_number)),
                    ),
                );
                proof {
                    assert(self.actions@ =~= base_a + Self::rpc_actions(
                        peer_id,
                        event,
                        self.meta_data,
                    ));
                    assert(self.events@ =~= base_e + Seq::<BehaviourEvent>::empty());
                }
            },
            RpcEvent::Request(id, RpcRequest::MetaData) => {
                self.actions.push(
                    Action::SendRpc(peer_id, RpcEvent::Response(id, RpcResponse::MetaData(self.meta_data))),
                );
                proof {
                    assert(self.actions@ =~= base_a + Self::rpc_actions(
                        peer_id,
                        event,
                        self.meta_data,
                    ));
                    assert(self.events@ =~= base_e + Seq::<BehaviourEvent>::empty());
                }
            },
            RpcEvent::Response(id, RpcResponse::Pong(s)) => {
                self.actions.push(Action::PmPongResponse(peer_id, s));
                proof {
                    assert(self.actions@ =~= base_a + Self::rpc_actions(
                        peer_id,
                        event,
                        self.meta_data,
                    ));
                    assert(self.events@ =~= base_e + Seq::<BehaviourEvent>::empty());
                }
            },
            RpcEvent::Response(id, RpcResponse::MetaData(m)) => {
                self.actions.push(Action::PmMetaDataResponse(peer_id, m));
                proof {
                    assert(self.actions@ =~= base_a + Self::rpc_actions(
                        peer_id,
                        event,
                        self.meta_data,
                    ));
                    assert(self.events@ =~= base_e + Seq::<BehaviourEvent>::empty());
                }
            },
            RpcEvent::Request(id, RpcRequest::Status(payload)) => {
                self.actions.push(Action::PmStatus(peer_id));
                self.events.push(
                    BehaviourEvent::RPC(
                        peer_id,
                        RpcEvent::Request(id, RpcRequest::Status(payload)),
                    ),
                );
                proof {
                    assert(self.actions@ =~= base_a + Self::rpc_actions(
                        peer_id,
                        event,
                        self.meta_data,
                    ));
                    assert(self.events@ =~= base_e + seq![BehaviourEvent::RPC(peer_id, event)]);
                }
            },
            RpcEvent::Response(id, RpcResponse::Status(payload)) => {
                self.actions.push(Action::PmStatus(peer_id));
                self.events.push(
                    BehaviourEvent::RPC(
                        peer_id,
                        RpcEvent::Response(id, RpcResponse::Status(payload)),
                    ),
                );
                proof {
                    assert(self.actions@ =~= base_a + Self::rpc_actions(
                        peer_id,
                        event,
                        self.meta_data,
                    ));
                    assert(self.events@ =~= base_e + seq![BehaviourEvent::RPC(peer_id, event)]);
                }
            },
            RpcEvent::Error(id, protocol, detail) => {
                self.actions.push(Action::PmRpcError(peer_id, protocol, detail));
                self.events.push(
                    BehaviourEvent::RPC(peer_id, RpcEvent::Error(id, protocol, detail)),
                );
                proof {
                    assert(self.actions@ =~= base_a + Self::rpc_actions(
                        peer_id,
                        event,
                        self.meta_data,
                    ));
                    assert(self.events@ =~= base_e + seq![BehaviourEvent::RPC(peer_id, event)]);
                }
            },
            RpcEvent::Request(id, RpcRequest::Goodbye(reason)) => {
                self.events.push(
                    BehaviourEvent::RPC(peer_id, RpcEvent::Request(id, RpcRequest::Goodbye(reason))),
                );
                proof {
                    assert(self.actions@ =~= base_a + Seq::<Action>::empty());
                    assert(self.events@ =~= base_e + seq![BehaviourEvent::RPC(peer_id, event)]);
                }
            },
            RpcEvent::Request(id, RpcRequest::BlocksByRange(start, len)) => {
                self.events.push(
                    BehaviourEvent::RPC(
                        peer_id,
                        RpcEvent::Request(id, RpcRequest::BlocksByRange(start, len)),
                    ),
                );
                proof {
                    assert(self.actions@ =~= base_a + Seq::<Action>::empty());
                    assert(self.events@ =~= base_e + seq![BehaviourEvent::RPC(peer_id, event)]);
                }
            },
            RpcEvent::Request(id, RpcRequest::BlocksByRoot(roots)) => {
                self.events.push(
                    BehaviourEvent::RPC(
                        peer_id,
                        RpcEvent::Request(id, RpcRequest::BlocksByRoot(roots)),
                    ),
                );
                proof {
                    assert(self.actions@ =~= base_a + Seq::<Action>::empty());
                    assert(self.events@ =~= base_e + seq![BehaviourEvent::RPC(peer_id, event)]);
                }
            },
            RpcEvent::Response(id, RpcResponse::BlocksByRange(block)) => {
                self.events.push(
                    BehaviourEvent::RPC(
                        peer_id,
                        RpcEvent::Response(id, RpcResponse::BlocksByRange(block)),
                    ),
                );
                proof {
                    assert(self.actions@ =~= base_a + Seq::<Action>::empty());
                    assert(self.events@ =~= base_e + seq![BehaviourEvent::RPC(peer_id, event)]);
                }
            },
            RpcEvent::Response(id, RpcResponse::BlocksByRoot(block)) => {
                self.events.push(
                    BehaviourEvent::RPC(
                        peer_id,
                        RpcEvent::Response(id, RpcResponse::BlocksByRoot(block)),
                    ),
                );
                proof {
                    assert(self.actions@ =~= base_a + Seq::<Action>::empty());
                    assert(self.events@ =~= base_e + seq![BehaviourEvent::RPC(peer_id, event)]);
                }
            },
        }
    }

    /// The identify info as forwarded: the advertised address list is cut
    /// to [`MAX_IDENTIFY_ADDRESSES`] entries, everything else is kept.
    pub open spec fn is_truncated_identify(a: Action, peer_id: u64, info: IdentifyInfo) -> bool {
        &&& a matches Action::PmIdentify(p, i) && p == peer_id && i.protocol_version
            == info.protocol_version && i.agent_version == info.agent_version && i.observed_addr
            == info.observed_addr && i.protocols@ == info.protocols@ && i.listen_addrs@ == (
        if info.listen_addrs@.len() <= MAX_IDENTIFY_ADDRESSES {
            info.listen_addrs@
        } else {
            info.listen_addrs@.subrange(0, MAX_IDENTIFY_ADDRESSES as int)
        })
    }

    /// Applies one identify engine event: received peer info is forwarded
    /// to the peer manager with its address list truncated as a defence
    /// against oversized advertisements; sent and failed exchanges are
    /// dropped.
    pub fn handle_identify_event(&mut self, event: IdentifyEvent)
        requires
            old(self).wf(),
        ensures
            final(self).wf(),
            match event {
                IdentifyEvent::Received { peer, info } => {
                    &&& final(self).actions@.len() == old(self).actions@.len() + 1
                    &&& final(self).actions@.subrange(0, old(self).actions@.len() as int) == old(
                        self,
                    ).actions@
                    &&& Self::is_truncated_identify(final(self).actions@.last(), peer, info)
                    &&& final(self).events@ == old(self).events@
                    &&& final(self).subscriptions@ == old(self).subscriptions@
                    &&& Self::same_node_state(*old(self), *final(self))
                },
                _ => *final(self) == *old(self),
            },
    {
        match event {
            IdentifyEvent::Received { peer, mut info } => {
                if info.listen_addrs.len() > MAX_IDENTIFY_ADDRESSES {
                    info.listen_addrs.truncate(MAX_IDENTIFY_ADDRESSES);
                }
                self.actions.push(Action::PmIdentify(peer, info));
                proof {
                    assert(self.actions@.subrange(0, old(self).actions@.len() as int) =~= old(
                        self,
                    ).actions@);
                }
            },
            IdentifyEvent::Sent { .. } => {},
            IdentifyEvent::Error { .. } => {},
        }
    }

    /// Applies one discovery engine event. Discovery surfaces peer records
    /// through direct queries, so its events carry nothing to act on.
    pub fn handle_discovery_event(&mut self, _event: DiscoveryEvent)
        requires
            old(self).wf(),
        ensures
            final(self).wf(),
            *final(self) == *old(self),
    {
    }

    /// The application events a directive batch surfaces: one status
    /// request per status directive, in order.
    pub open spec fn directive_status_events(ds: Seq<PmDirective>) -> Seq<BehaviourEvent>
        decreases ds.len(),
    {
        if ds.len() == 0 {
            Seq::empty()
        } else {
            Self::directive_status_events(ds.drop_last()) + match ds.last() {
                PmDirective::Status(p) => seq![BehaviourEvent::StatusPeer(p)],
                _ => Seq::empty(),
            }
        }
    }

    /// The commands a directive batch produces: a ping request carrying
    /// the node's sequence number for each ping directive and a metadata
    /// request for each metadata directive, in order.
    pub open spec fn directive_actions(ds: Seq<PmDirective>, seq_number: u64) -> Seq<Action>
        decreases ds.len(),
    {
        if ds.len() == 0 {
            Seq::empty()
        } else {
            Self::directive_actions(ds.drop_last(), seq_number) + match ds.last() {
                PmDirective::Ping(p) => seq![
                    Action::SendRpc(p, RpcEvent::Request(0, RpcRequest::Ping(seq_number))),
                ],
                PmDirective::MetaData(p) => seq![
                    Action::SendRpc(p, RpcEvent::Request(0, RpcRequest::MetaData)),
                ],
                _ => Seq::empty(),
            }
        }
    }

    /// One poll cycle. The peer manager's drained directives are applied
    /// first, to exhaustion: status directives are surfaced as application
    /// events, ping and metadata directives become immediate fire-and-
    /// forget sends; none blocks later polling. Then the oldest pending
    /// application event, if any, is returned, so each cycle surfaces at
    /// most one event.
    pub fn poll(&mut self, directives: Vec<PmDirective>) -> (r: Option<BehaviourEvent>)
        requires
            old(self).wf(),
        ensures
            final(self).wf(),
            ({
                let queued = old(self).events@ + Self::directive_status_events(directives@);
                &&& r == if queued.len() == 0 {
                    None::<BehaviourEvent>
                } else {
                    Some(queued[0])
                }
                &&& final(self).events@ == if queued.len() == 0 {
                    queued
                } else {
                    queued.drop_first()
                }
                &&& final(self).actions@ == old(self).actions@ + Self::directive_actions(
                    directives@,
                    old(self).meta_data.seq_number,
                )
                &&& final(self).subscriptions@ == old(self).subscriptions@
                &&& Self::same_node_state(*old(self), *final(self))
            }),
    {
        let ghost all = directives@;
        let mut rest = directives;
        while rest.len() > 0
            invariant
                self.wf(),
                all == all.subrange(0, all.len() - rest@.len()) + rest@,
                rest@.len() <= all.len(),
                self.events@ == old(self).events@ + Self::directive_status_events(
                    all.subrange(0, all.len() - rest@.len()),
                ),
                self.actions@ == old(self).actions@ + Self::directive_actions(
                    all.subrange(0, all.len() - rest@.len()),
                    old(self).meta_data.seq_number,
                ),
                self.subscriptions@ == old(self).subscriptions@,
                Self::same_node_state(*old(self), *self),
            decreases rest@.len(),
        {
            let ghost done = all.subrange(0, all.len() - rest@.len());
            let directive = rest.remove(0);
            let ghost d = directive;
            match directive {
                PmDirective::Status(peer) => {
                    // surfaced as an event so the application runs the
                    // status exchange
                    self.events.push(BehaviourEvent::StatusPeer(peer));
                },
                PmDirective::Ping(peer) => {
                    self.actions.push(
                        Action::SendRpc(
                            peer,
                            RpcEvent::Request(0, RpcRequest::Ping(self.meta_data.seq_number)),
                        ),
                    );
                },
                PmDirective::MetaData(peer) => {
                    self.actions.push(
                        Action::SendRpc(peer, RpcEvent::Request(0, RpcRequest::MetaData)),
                    );
                },
                PmDirective::DisconnectPeer(_) => {},
                PmDirective::BanPeer(_) => {},
            }
            proof {
                let done2 = all.subrange(0, all.len() - rest@.len());
                assert(done2 =~= done.push(d));
                assert(done2.drop_last() =~= done);
                assert(all =~= done2 + rest@);
            }
        }
        proof {
            assert(all.subrange(0, all.len() as int) =~= all);
        }
        if self.events.len() > 0 {
            let ghost queued = self.events@;
            let head = self.events.remove(0);
            proof {
                assert(self.events@ =~= queued.drop_first());
            }
            Some(head)
        } else {
            None
        }
    }
}

/// Gossip deduplication: delivering the same delivery id twice surfaces at
/// most one application event — exactly one when the first delivery is a
/// first sighting that decodes — and the second delivery surfaces nothing,
/// whatever peer, topics or payload it arrives with.
pub proof fn lemma_gossip_dedup(
    pre: Behaviour,
    mid: Behaviour,
    post: Behaviour,
    id: u64,
    source1: u64,
    topics1: Seq<GossipTopic>,
    data1: Seq<u8>,
    source2: u64,
    topics2: Seq<GossipTopic>,
    data2: Seq<u8>,
)
    requires
        Behaviour::gossip_message_post(pre, mid, source1, id, topics1, data1),
        Behaviour::gossip_message_post(mid, post, source2, id, topics2, data2),
    ensures
        post.events@ == mid.events@,
        !pre.seen_gossip_messages.holds(id) && PubsubMessage::decodes(topics1) ==> {
            &&& mid.events@.len() == pre.events@.len() + 1
            &&& Behaviour::is_delivery_event(mid.events@.last(), source1, id, topics1, data1)
        },
        pre.seen_gossip_messages.holds(id) ==> mid.events@ == pre.events@,
{
    assert(mid.seen_gossip_messages.holds(id));
}

/// Fork resubscription: updating the fork version keeps the number of
/// subscriptions and each topic's fork-independent name, while every
/// topic's digest becomes the new fork's digest. With the engine's
/// subscription set evolving in lock step with the coordinator's, its
/// subscription count before and after matches.
pub proof fn lemma_fork_resubscription(pre: Behaviour, post: Behaviour, id: EnrForkId)
    requires
        pre.wf(),
        Behaviour::update_fork_post(pre, post, id),
    ensures
        post.subscriptions@.len() == pre.subscriptions@.len(),
        forall|i: int|
            0 <= i < post.subscriptions@.len() ==> (#[trigger] post.subscriptions@[i]).name()
                == pre.subscriptions@[i].name(),
        forall|i: int|
            0 <= i < post.subscriptions@.len() ==> (#[trigger] post.subscriptions@[i]).fork_digest
                == id.fork_digest,
{
}

/// Inline RPC interception: a ping or metadata exchange never reaches the
/// application's event stream — a ping is answered inline with a pong
/// carrying the node's sequence number — while a status request or
/// response always reaches it.
pub proof fn lemma_rpc_interception(pre: Behaviour, post: Behaviour, peer_id: u64, event: RpcEvent)
    requires
        Behaviour::rpc_post(pre, post, peer_id, event),
    ensures
        (event matches RpcEvent::Request(_, RpcRequest::Ping(_))) ==> post.events@ == pre.events@,
        (event matches RpcEvent::Request(_, RpcRequest::MetaData)) ==> post.events@ == pre.events@,
        (event matches RpcEvent::Request(_, RpcRequest::Status(_))) ==> post.events@
            == pre.events@.push(BehaviourEvent::RPC(peer_id, event)),
        (event matches RpcEvent::Response(_, RpcResponse::Status(_))) ==> post.events@
            == pre.events@.push(BehaviourEvent::RPC(peer_id, event)),
{
    if Behaviour::rpc_goes_upward(event) {
        assert(pre.events@ + seq![BehaviourEvent::RPC(peer_id, event)] =~= pre.events@.push(
            BehaviourEvent::RPC(peer_id, event),
        ));
    } else {
        assert(pre.events@ + Seq::<BehaviourEvent>::empty() =~= pre.events@);
    }
}

} // verus!
