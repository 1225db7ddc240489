use peer_score::delivery::{DeliveryRecord, DeliveryStatus};
use peer_score::fixed::{
    bump, clamp_to_i64, decay, deficit_squared, ratio, sat_add, sat_add_i128, scaled_mul, weighted,
    SCALE,
};
use peer_score::ident::{contains_ip, find_peer, IpAddr, PeerId, TopicHash};
use peer_score::message::{
    decimal_string, digit_str, GossipsubControlAction, GossipsubMessage, GossipsubRpc, GossipsubSubscription,
    GossipsubSubscriptionAction, ProtocolConfig,
};
use peer_score::params::{PeerScoreParams, TopicScoreParams};
use peer_score::peer::{units, PeerStats};
use peer_score::stats::{within_window, Delivery, MeshStatus, TopicStats};

#[test]
fn fixed_point_products() {
    assert_eq!(scaled_mul(3 * SCALE, 3 * SCALE), 9 * SCALE);
    assert_eq!(scaled_mul(1, 999_999), 0);
    assert_eq!(scaled_mul(1_500_000, 1_500_000), 2_250_000);
    assert_eq!(scaled_mul(u64::MAX, u64::MAX), u64::MAX);
    assert_eq!(weighted(3 * SCALE, -2 * (SCALE as i64)), -6 * (SCALE as i128));
    assert_eq!(weighted(1, -1_500_000), -1);
    assert_eq!(weighted(1, 1_500_000), 1);
    assert_eq!(weighted(3, -500_000), -1);
    assert_eq!(weighted(u64::MAX, i64::MIN), -170141183460469231722463931679029i128);
    assert_eq!(ratio(5500, 1000), 5_500_000);
    assert_eq!(ratio(1, 3), 333_333);
    assert_eq!(ratio(u64::MAX, 1), u64::MAX);
}

#[test]
fn fixed_point_counters() {
    assert_eq!(sat_add(1, 2), 3);
    assert_eq!(sat_add(u64::MAX, 1), u64::MAX);
    assert_eq!(bump(0, 10 * SCALE), SCALE);
    assert_eq!(bump(9_500_000, 10 * SCALE), 10 * SCALE);
    assert_eq!(bump(10 * SCALE, 10 * SCALE), 10 * SCALE);
    assert_eq!(bump(u64::MAX - 1, u64::MAX), u64::MAX);
    assert_eq!(bump(5, 0), 0);
    assert_eq!(decay(SCALE, 900_000, 10_000), 900_000);
    assert_eq!(decay(11_000, 900_000, 10_000), 0);
    assert_eq!(decay(11_112, 900_000, 10_000), 10_000);
    assert_eq!(deficit_squared(5 * SCALE, 2 * SCALE), 9 * SCALE);
    assert_eq!(deficit_squared(5 * SCALE, 5 * SCALE), 0);
    assert_eq!(deficit_squared(5 * SCALE, 6 * SCALE), 0);
    assert_eq!(sat_add_i128(i128::MAX, 1), i128::MAX);
    assert_eq!(sat_add_i128(i128::MIN, -1), i128::MIN);
    assert_eq!(sat_add_i128(-5, 3), -2);
    assert_eq!(clamp_to_i64(i128::MAX), i64::MAX);
    assert_eq!(clamp_to_i64(i128::MIN), i64::MIN);
    assert_eq!(clamp_to_i64(-7), -7);
    assert_eq!(units(4), 4 * SCALE);
    assert_eq!(units(usize::MAX), u64::MAX);
}

#[test]
fn window_of_a_duplicate() {
    assert!(within_window(None, 10, u64::MAX));
    assert!(within_window(Some(100), 10, 110));
    assert!(!within_window(Some(100), 10, 111));
    // a window whose end cannot be represented has elapsed
    assert!(!within_window(Some(u64::MAX), 1, 5));
}

#[test]
fn message_fingerprint() {
    let m = GossipsubMessage {
        source: PeerId::new("QmSource".to_string()),
        data: vec![],
        sequence_number: vec![0, 0, 0, 0, 0, 0, 1, 2],
        topics: vec![],
    };
    assert_eq!(m.msg_id(), "QmSource258");
    let short = GossipsubMessage { sequence_number: vec![1, 2, 3], ..m.clone() };
    assert_eq!(short.msg_id(), "QmSource0");
    let big = GossipsubMessage { sequence_number: vec![255; 9], ..m.clone() };
    assert_eq!(big.msg_id(), "QmSource18446744073709551615");
    let ten = GossipsubMessage { sequence_number: vec![0, 0, 0, 0, 0, 0, 0, 10], ..m };
    assert_eq!(ten.msg_id(), "QmSource10");
}

#[test]
fn identifiers() {
    let a = PeerId::new("A".to_string());
    let b = PeerId::new("B".to_string());
    assert!(a.same(&a.clone()));
    assert!(!a.same(&b));
    assert_eq!(a.to_base58(), "A");
    let peers = vec![a.clone(), b.clone(), a.clone()];
    assert_eq!(find_peer(&peers, &a), Some(0));
    assert_eq!(find_peer(&peers, &b), Some(1));
    assert_eq!(find_peer(&peers, &PeerId::new("C".to_string())), None);
    let t = TopicHash::from_raw("T".to_string());
    assert!(t.same(&t.clone()));
    assert!(!t.same(&TopicHash::from_raw("U".to_string())));
    assert_eq!(t.into_string(), "T");
    assert!(contains_ip(&vec![IpAddr::V4(1), IpAddr::V6(1)], IpAddr::V6(1)));
    assert!(!contains_ip(&vec![IpAddr::V4(1)], IpAddr::V6(1)));
}

#[test]
fn mesh_status_and_topic_stats() {
    assert_eq!(MeshStatus::new_active(7), MeshStatus::Active { graft_time: 7, mesh_time: 0 });
    let d = TopicStats::default();
    assert!(!d.in_mesh());
    assert_eq!(d.first_message_deliveries, 0);
    assert_eq!(d.mesh_status, MeshStatus::InActive);
    let g = d.grafted(3);
    assert!(g.in_mesh());
    assert!(!g.mesh_message_deliveries_active);
}

fn one_topic() -> TopicScoreParams {
    TopicScoreParams {
        topic_weight: SCALE,
        time_in_mesh_weight: 0,
        time_in_mesh_quantum: 1,
        time_in_mesh_cap: SCALE,
        first_message_deliveries_weight: SCALE as i64,
        first_message_deliveries_decay: 500_000,
        first_message_deliveries_cap: 2 * SCALE,
        mesh_message_deliveries_weight: -(SCALE as i64),
        mesh_message_deliveries_decay: 500_000,
        mesh_message_deliveries_cap: 3 * SCALE,
        mesh_message_deliveries_threshold: 2 * SCALE,
        mesh_message_deliveries_window: 5,
        mesh_message_deliveries_activation: 10,
        mesh_failure_penalty_weight: -(SCALE as i64),
        mesh_failure_penalty_decay: 500_000,
        invalid_message_deliveries_weight: -(SCALE as i64),
        invalid_message_deliveries_decay: 500_000,
    }
}

#[test]
fn topic_stats_events() {
    let tp = one_topic();
    let g = TopicStats::default().grafted(0);
    let f = g.marked(&tp, Delivery::First);
    assert_eq!((f.first_message_deliveries, f.mesh_message_deliveries), (SCALE, SCALE));
    let out = TopicStats::default().marked(&tp, Delivery::First);
    assert_eq!((out.first_message_deliveries, out.mesh_message_deliveries), (SCALE, 0));
    let d = g.marked(&tp, Delivery::Duplicate { validated: Some(10), now: 15 });
    assert_eq!(d.mesh_message_deliveries, SCALE);
    let late = g.marked(&tp, Delivery::Duplicate { validated: Some(10), now: 16 });
    assert_eq!(late.mesh_message_deliveries, 0);
    let inv = g.marked(&tp, Delivery::Invalid).marked(&tp, Delivery::Invalid);
    assert_eq!(inv.invalid_message_deliveries, 2 * SCALE);
    // two invalid deliveries: the square is 4, the weight -1
    assert_eq!(inv.contribution(&tp), -4 * (SCALE as i128));
    let r = f.decayed(&tp, 1000, 11);
    assert!(r.mesh_message_deliveries_active);
    assert_eq!(r.first_message_deliveries, 500_000);
    assert_eq!(r.mesh_status, MeshStatus::Active { graft_time: 0, mesh_time: 11 });
    // first deliveries 0.5, deficit (2 - 0.5)^2 = 2.25 at weight -1
    assert_eq!(r.contribution(&tp), 500_000 - 2_250_000);
    let p = r.pruned(&tp);
    assert_eq!(p.mesh_failure_penalty, 2_250_000);
    let q = r.retired(&tp);
    assert_eq!(q.mesh_failure_penalty, 2_250_000);
    assert_eq!(q.first_message_deliveries, 0);
    assert!(!q.in_mesh());
}

#[test]
fn stats_are_created_on_demand_for_scored_topics_only() {
    let params = PeerScoreParams {
        topics: vec![TopicHash::from_raw("T".to_string())],
        topic_params: vec![one_topic()],
        topic_score_cap: 0,
        ip_colocation_factor_weight: 0,
        ip_colocation_factor_threshold: SCALE,
        ip_colocation_factor_whitelist: vec![],
        behaviour_penalty_weight: 0,
        behaviour_penalty_decay: 500_000,
        decay_to_zero: 1,
        retain_score: 0,
    };
    let mut s = PeerStats::new(1, vec![]);
    assert_eq!(s.topics, vec![None]);
    assert_eq!(s.stats_or_default_mut(&TopicHash::from_raw("U".to_string()), &params), None);
    assert_eq!(s.topics, vec![None]);
    assert_eq!(s.stats_or_default_mut(&TopicHash::from_raw("T".to_string()), &params), Some(0));
    assert_eq!(s.topics, vec![Some(TopicStats::default())]);
    assert_eq!(params.find_topic(&TopicHash::from_raw("T".to_string())), Some(0));
}

#[test]
fn delivery_record_starts_unknown() {
    let r = DeliveryRecord::new(42);
    assert_eq!(r.status, DeliveryStatus::Unknown);
    assert_eq!((r.first_seen, r.validated), (42, 42));
    assert!(r.peers.is_empty());
    assert!(!r.has_peer(&PeerId::new("A".to_string())));
}

#[test]
fn protocol_items() {
    let c = ProtocolConfig::new();
    assert_eq!(c.protocol_info(), "/meshsub/1.0.0");
    let sub = GossipsubSubscription {
        action: GossipsubSubscriptionAction::Subscribe,
        topic: TopicHash::from_raw("T".to_string()),
    };
    assert_ne!(sub.action, GossipsubSubscriptionAction::Unsubscribe);
    let rpc = GossipsubRpc {
        messages: vec![],
        subscriptions: vec![sub],
        control_msgs: vec![GossipsubControlAction::IWant { message_ids: vec!["x".to_string()] }],
    };
    assert_eq!(rpc.subscriptions.len(), 1);
    assert_eq!(rpc.control_msgs.len(), 1);
}

#[test]
fn decimal_digits() {
    assert_eq!(digit_str(0), "0");
    assert_eq!(digit_str(9), "9");
    assert_eq!(decimal_string(0), "0");
    assert_eq!(decimal_string(7), "7");
    assert_eq!(decimal_string(10), "10");
    assert_eq!(decimal_string(1234567890), "1234567890");
    assert_eq!(decimal_string(u64::MAX), "18446744073709551615");
}
