use beacon_network::behaviour::Behaviour;
use beacon_network::behaviour::MAX_IDENTIFY_ADDRESSES;
use beacon_network::dedup::DedupCache;
use beacon_network::types::Action;
use beacon_network::types::BehaviourEvent;
use beacon_network::types::ConnectionDirection;
use beacon_network::types::EnrForkId;
use beacon_network::types::GossipEncoding;
use beacon_network::types::GossipEvent;
use beacon_network::types::GossipKind;
use beacon_network::types::GossipTopic;
use beacon_network::types::IdentifyEvent;
use beacon_network::types::IdentifyInfo;
use beacon_network::types::MetaData;
use beacon_network::types::PeerRecordBitfield;
use beacon_network::types::PmDirective;
use beacon_network::types::PubsubMessage;
use beacon_network::types::RpcEvent;
use beacon_network::types::RpcRequest;
use beacon_network::types::RpcResponse;

fn fork(digest: u64) -> EnrForkId {
    EnrForkId { fork_digest: digest, next_fork_version: 0, next_fork_epoch: 0 }
}

fn block_topic(digest: u64) -> GossipTopic {
    GossipTopic { kind: GossipKind::BeaconBlock, encoding: GossipEncoding::Ssz, fork_digest: digest }
}

fn delivery(source: u64, id: u64, digest: u64, data: Vec<u8>) -> GossipEvent {
    GossipEvent::Message { source, id, topics: vec![block_topic(digest)], data }
}

#[test]
fn gossip_duplicate_delivery_yields_one_event() {
    let mut behaviour = Behaviour::new(0, fork(7));

    behaviour.handle_gossip_event(delivery(1, 42, 7, vec![1, 2, 3]));
    behaviour.handle_gossip_event(delivery(2, 42, 7, vec![1, 2, 3]));

    let first = behaviour.poll(Vec::new());
    match first {
        Some(BehaviourEvent::PubsubMessage { id, source, message, .. }) => {
            assert_eq!(id, 42);
            assert_eq!(source, 1, "the event reports the first relaying peer");
            assert_eq!(message, PubsubMessage::BeaconBlock(vec![1, 2, 3]));
        }
        other => panic!("expected a pubsub message event, got {:?}", other),
    }
    assert_eq!(behaviour.poll(Vec::new()), None, "the duplicate delivery adds no event");
}

#[test]
fn gossip_delivery_without_topic_is_dropped() {
    let mut behaviour = Behaviour::new(0, fork(7));

    behaviour.handle_gossip_event(GossipEvent::Message {
        source: 1,
        id: 9,
        topics: Vec::new(),
        data: vec![1],
    });

    assert_eq!(behaviour.poll(Vec::new()), None, "an undecodable delivery is dropped");
}

#[test]
fn gossip_subscription_confirmation_is_surfaced() {
    let mut behaviour = Behaviour::new(0, fork(7));

    behaviour.handle_gossip_event(GossipEvent::Subscribed { peer: 5, topic: block_topic(7) });
    behaviour.handle_gossip_event(GossipEvent::Unsubscribed { peer: 5, topic: block_topic(7) });

    assert_eq!(
        behaviour.poll(Vec::new()),
        Some(BehaviourEvent::PeerSubscribed(5, block_topic(7)))
    );
    assert_eq!(behaviour.poll(Vec::new()), None, "unsubscription confirmations are dropped");
}

#[test]
fn subscribe_kind_is_idempotent() {
    let mut behaviour = Behaviour::new(0, fork(7));

    assert!(behaviour.subscribe_kind(GossipKind::BeaconBlock));
    assert!(!behaviour.subscribe_kind(GossipKind::BeaconBlock), "second subscribe is a no-op");
    assert_eq!(behaviour.subscriptions.len(), 1);
    assert!(behaviour.unsubscribe_kind(GossipKind::BeaconBlock));
    assert!(!behaviour.unsubscribe_kind(GossipKind::BeaconBlock), "second unsubscribe is a no-op");
    assert_eq!(behaviour.subscriptions.len(), 0);
}

#[test]
fn fork_update_rebinds_all_topics() {
    let mut behaviour = Behaviour::new(0, fork(7));
    behaviour.subscribe_kind(GossipKind::BeaconBlock);
    behaviour.subscribe_kind(GossipKind::VoluntaryExit);
    behaviour.subscribe_to_subnet(3);
    let before = behaviour.subscriptions.clone();
    behaviour.take_actions();

    behaviour.update_fork_version(fork(9));

    assert_eq!(behaviour.subscriptions.len(), before.len(), "no net subscribe/unsubscribe leak");
    for (old, new) in before.iter().zip(behaviour.subscriptions.iter()) {
        assert_eq!(new.kind, old.kind, "topic names survive the fork");
        assert_eq!(new.encoding, old.encoding);
        assert_eq!(new.fork_digest, 9, "every digest is the new fork's");
    }

    let actions = behaviour.take_actions();
    assert_eq!(actions[0], Action::DiscoveryUpdateForkId(fork(9)));
    let unsubscribes =
        actions.iter().filter(|a| matches!(a, Action::GossipUnsubscribe(_))).count();
    let subscribes = actions.iter().filter(|a| matches!(a, Action::GossipSubscribe(_))).count();
    assert_eq!(unsubscribes, before.len());
    assert_eq!(subscribes, before.len());
}

#[test]
fn ping_request_is_answered_inline() {
    let mut behaviour = Behaviour::new(0, fork(7));

    behaviour.handle_rpc_event(4, RpcEvent::Request(11, RpcRequest::Ping(88)));

    assert_eq!(behaviour.poll(Vec::new()), None, "a ping never reaches the event stream");
    let actions = behaviour.take_actions();
    assert_eq!(
        actions,
        vec![
            Action::PmPingRequest(4, 88),
            Action::SendRpc(4, RpcEvent::Response(11, RpcResponse::Pong(1))),
        ],
        "the peer manager is told and a pong with the local sequence number goes back"
    );
}

#[test]
fn metadata_exchange_is_answered_inline() {
    let mut behaviour = Behaviour::new(5, fork(7));

    behaviour.handle_rpc_event(4, RpcEvent::Request(2, RpcRequest::MetaData));
    behaviour.handle_rpc_event(4, RpcEvent::Response(2, RpcResponse::Pong(3)));
    behaviour.handle_rpc_event(
        4,
        RpcEvent::Response(2, RpcResponse::MetaData(MetaData { seq_number: 9, attnets: 1 })),
    );

    assert_eq!(behaviour.poll(Vec::new()), None, "none of these reaches the event stream");
    let actions = behaviour.take_actions();
    assert_eq!(
        actions,
        vec![
            Action::SendRpc(
                4,
                RpcEvent::Response(2, RpcResponse::MetaData(MetaData { seq_number: 1, attnets: 5 })),
            ),
            Action::PmPongResponse(4, 3),
            Action::PmMetaDataResponse(4, MetaData { seq_number: 9, attnets: 1 }),
        ]
    );
}

#[test]
fn status_request_goes_upward() {
    let mut behaviour = Behaviour::new(0, fork(7));

    behaviour.handle_rpc_event(4, RpcEvent::Request(1, RpcRequest::Status(vec![8])));

    assert_eq!(
        behaviour.poll(Vec::new()),
        Some(BehaviourEvent::RPC(4, RpcEvent::Request(1, RpcRequest::Status(vec![8]))))
    );
    let actions = behaviour.take_actions();
    assert_eq!(actions, vec![Action::PmStatus(4)], "the peer manager learns of the status");
}

#[test]
fn rpc_error_goes_upward_and_is_reported() {
    let mut behaviour = Behaviour::new(0, fork(7));

    behaviour.handle_rpc_event(4, RpcEvent::Error(1, 2, 3));

    assert_eq!(behaviour.poll(Vec::new()), Some(BehaviourEvent::RPC(4, RpcEvent::Error(1, 2, 3))));
    assert_eq!(behaviour.take_actions(), vec![Action::PmRpcError(4, 2, 3)]);
}

#[test]
fn other_rpc_events_pass_through_unchanged() {
    let mut behaviour = Behaviour::new(0, fork(7));

    behaviour.handle_rpc_event(4, RpcEvent::Request(1, RpcRequest::BlocksByRange(10, 20)));

    assert_eq!(
        behaviour.poll(Vec::new()),
        Some(BehaviourEvent::RPC(4, RpcEvent::Request(1, RpcRequest::BlocksByRange(10, 20))))
    );
    assert_eq!(behaviour.take_actions(), Vec::<Action>::new());
}

#[test]
fn poll_drains_directives_then_surfaces_one_event() {
    let mut behaviour = Behaviour::new(0, fork(7));

    let directives = vec![
        PmDirective::Ping(1),
        PmDirective::Status(2),
        PmDirective::MetaData(3),
        PmDirective::DisconnectPeer(4),
        PmDirective::BanPeer(5),
    ];
    let first = behaviour.poll(directives);

    assert_eq!(first, Some(BehaviourEvent::StatusPeer(2)));
    assert_eq!(behaviour.poll(Vec::new()), None, "one event per cycle");
    assert_eq!(
        behaviour.take_actions(),
        vec![
            Action::SendRpc(1, RpcEvent::Request(0, RpcRequest::Ping(1))),
            Action::SendRpc(3, RpcEvent::Request(0, RpcRequest::MetaData)),
        ]
    );
}

#[test]
fn publish_encodes_each_message_on_its_topic() {
    let mut behaviour = Behaviour::new(0, fork(7));

    behaviour.publish(vec![
        PubsubMessage::BeaconBlock(vec![1]),
        PubsubMessage::Attestation(3, vec![2]),
    ]);

    assert_eq!(
        behaviour.take_actions(),
        vec![
            Action::GossipPublish(block_topic(7), vec![1]),
            Action::GossipPublish(
                GossipTopic {
                    kind: GossipKind::Attestation(3),
                    encoding: GossipEncoding::Ssz,
                    fork_digest: 7,
                },
                vec![2],
            ),
        ]
    );
}

#[test]
fn update_enr_subnet_bumps_metadata() {
    let mut behaviour = Behaviour::new(0, fork(7));

    behaviour.update_enr_subnet(3, true, true);
    assert_eq!(behaviour.meta_data, MetaData { seq_number: 2, attnets: 0b1000 });

    // a failed record update still bumps the sequence number
    behaviour.update_enr_subnet(4, true, false);
    assert_eq!(behaviour.meta_data, MetaData { seq_number: 3, attnets: 0b1000 });

    behaviour.update_enr_subnet(3, false, true);
    assert_eq!(behaviour.meta_data, MetaData { seq_number: 4, attnets: 0 });

    let actions = behaviour.take_actions();
    assert_eq!(
        actions,
        vec![
            Action::DiscoveryUpdateSubnet(3, true),
            Action::DiscoveryUpdateSubnet(4, true),
            Action::DiscoveryUpdateSubnet(3, false),
        ]
    );
}

#[test]
fn peer_connect_seeds_placeholder_metadata() {
    let mut behaviour = Behaviour::new(0, fork(7));

    behaviour.notify_peer_connect(1, ConnectionDirection::Outgoing, PeerRecordBitfield::Valid(6));
    behaviour.notify_peer_connect(2, ConnectionDirection::Incoming, PeerRecordBitfield::NoRecord);
    behaviour.notify_peer_connect(3, ConnectionDirection::Incoming, PeerRecordBitfield::Invalid);
    behaviour.notify_peer_disconnect(1);

    assert_eq!(
        behaviour.take_actions(),
        vec![
            Action::PmConnectOutgoing(1),
            Action::SeedPeerMetaData(1, MetaData { seq_number: 0, attnets: 6 }),
            Action::PmConnectIncoming(2),
            Action::PmConnectIncoming(3),
            Action::PmDisconnect(1),
        ],
        "only a decodable record seeds metadata, with sequence number zero"
    );
}

#[test]
fn identify_addresses_are_truncated() {
    let mut behaviour = Behaviour::new(0, fork(7));
    let info = IdentifyInfo {
        protocol_version: 1,
        agent_version: 2,
        listen_addrs: (0..15u64).collect(),
        protocols: vec![1, 2],
        observed_addr: 9,
    };

    behaviour.handle_identify_event(IdentifyEvent::Received { peer: 4, info });
    behaviour.handle_identify_event(IdentifyEvent::Sent { peer: 4 });
    behaviour.handle_identify_event(IdentifyEvent::Error { peer: 4 });

    let actions = behaviour.take_actions();
    assert_eq!(actions.len(), 1);
    match &actions[0] {
        Action::PmIdentify(peer, forwarded) => {
            assert_eq!(*peer, 4);
            assert_eq!(forwarded.listen_addrs.len(), MAX_IDENTIFY_ADDRESSES);
            assert_eq!(forwarded.listen_addrs, (0..10u64).collect::<Vec<_>>());
            assert_eq!(forwarded.protocols, vec![1, 2]);
        }
        other => panic!("expected an identify forward, got {:?}", other),
    }
}

#[test]
fn dedup_cache_evicts_oldest_when_full() {
    let mut cache = DedupCache::new(3);

    assert!(cache.insert(1));
    assert!(cache.insert(2));
    assert!(cache.insert(3));
    assert!(!cache.insert(2), "a repeat insert reports a known id");
    assert!(cache.insert(4), "a fourth id evicts the oldest");
    assert!(!cache.contains(1), "the oldest id was evicted");
    assert!(cache.contains(2));
    assert!(cache.contains(3));
    assert!(cache.contains(4));
}

#[test]
fn send_rpc_and_propagate_forward_to_engines() {
    let mut behaviour = Behaviour::new(0, fork(7));

    behaviour.send_rpc(8, RpcEvent::Request(1, RpcRequest::Goodbye(2)));
    behaviour.propagate_message(8, 42);
    behaviour.peer_banned(9);
    behaviour.peer_unbanned(9);
    behaviour.add_enr(77);
    behaviour.peers_request(3);

    assert_eq!(
        behaviour.take_actions(),
        vec![
            Action::SendRpc(8, RpcEvent::Request(1, RpcRequest::Goodbye(2))),
            Action::GossipPropagate(42, 8),
            Action::DiscoveryBan(9),
            Action::DiscoveryUnban(9),
            Action::DiscoveryAddRecord(77),
            Action::DiscoveryPeersRequest(3),
        ]
    );
}
