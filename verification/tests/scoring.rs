use peer_score::delivery::RejectMsg;
use peer_score::engine::PeerScore;
use peer_score::fixed::SCALE;
use peer_score::ident::{IpAddr, PeerId, TopicHash};
use peer_score::message::GossipsubMessage;
use peer_score::params::{ParamsError, PeerScoreParams, TopicScoreParams};
use peer_score::stats::{ConnectionStatus, MeshStatus};

fn peer(name: &str) -> PeerId {
    PeerId::new(name.to_string())
}

fn topic(name: &str) -> TopicHash {
    TopicHash::from_raw(name.to_string())
}

fn message(source: &str, seq: u8, topics: &[&str]) -> GossipsubMessage {
    GossipsubMessage {
        source: peer(source),
        data: vec![1, 2, 3],
        sequence_number: vec![0, 0, 0, 0, 0, 0, 0, seq],
        topics: topics.iter().map(|t| topic(t)).collect(),
    }
}

fn topic_params() -> TopicScoreParams {
    TopicScoreParams {
        topic_weight: SCALE / 2,
        time_in_mesh_weight: 0,
        time_in_mesh_quantum: 1000,
        time_in_mesh_cap: 10 * SCALE,
        first_message_deliveries_weight: 2 * (SCALE as i64),
        first_message_deliveries_decay: 900_000,
        first_message_deliveries_cap: 10 * SCALE,
        mesh_message_deliveries_weight: -(SCALE as i64),
        mesh_message_deliveries_decay: 900_000,
        mesh_message_deliveries_cap: 10 * SCALE,
        mesh_message_deliveries_threshold: 5 * SCALE,
        mesh_message_deliveries_window: 10,
        mesh_message_deliveries_activation: 1000,
        mesh_failure_penalty_weight: -(SCALE as i64),
        mesh_failure_penalty_decay: 900_000,
        invalid_message_deliveries_weight: -(SCALE as i64),
        invalid_message_deliveries_decay: 900_000,
    }
}

fn params_with(tp: TopicScoreParams) -> PeerScoreParams {
    PeerScoreParams {
        topics: vec![topic("T")],
        topic_params: vec![tp],
        topic_score_cap: 0,
        ip_colocation_factor_weight: -10 * (SCALE as i64),
        ip_colocation_factor_threshold: SCALE,
        ip_colocation_factor_whitelist: vec![],
        behaviour_penalty_weight: -(SCALE as i64),
        behaviour_penalty_decay: 900_000,
        decay_to_zero: 10_000,
        retain_score: 60_000,
    }
}

fn engine() -> PeerScore {
    PeerScore::new(params_with(topic_params())).unwrap()
}

#[test]
fn single_valid_delivery() {
    let mut e = engine();
    let a = peer("A");
    e.add_peer(a.clone(), vec![]);
    e.graft(&a, &topic("T"), 0);
    e.deliver_message(&a, &message("S", 1, &["T"]), 5);
    // one first delivery, weight 2, topic weight one half
    assert_eq!(e.score(&a), SCALE as i128);
    let ts = e.topic_stats(&a, &topic("T")).unwrap();
    assert_eq!(ts.first_message_deliveries, SCALE);
    assert_eq!(ts.mesh_message_deliveries, SCALE);
}

#[test]
fn first_delivery_credit_is_unique() {
    let mut e = engine();
    let (a, b) = (peer("A"), peer("B"));
    e.add_peer(a.clone(), vec![]);
    e.add_peer(b.clone(), vec![]);
    e.graft(&a, &topic("T"), 0);
    e.graft(&b, &topic("T"), 0);
    let m = message("S", 2, &["T"]);
    e.deliver_message(&a, &m, 100);
    e.duplicated_message(&b, &m, 105);
    let sa = e.topic_stats(&a, &topic("T")).unwrap();
    let sb = e.topic_stats(&b, &topic("T")).unwrap();
    assert_eq!(sa.first_message_deliveries, SCALE);
    assert_eq!(sb.first_message_deliveries, 0);
    assert_eq!(sb.mesh_message_deliveries, SCALE);
}

#[test]
fn duplicate_outside_window_is_not_counted() {
    let mut e = engine();
    let (a, b) = (peer("A"), peer("B"));
    e.add_peer(a.clone(), vec![]);
    e.add_peer(b.clone(), vec![]);
    e.graft(&a, &topic("T"), 0);
    e.graft(&b, &topic("T"), 0);
    let m = message("S", 3, &["T"]);
    e.deliver_message(&a, &m, 100);
    e.duplicated_message(&b, &m, 111);
    let sb = e.topic_stats(&b, &topic("T")).unwrap();
    assert_eq!(sb.mesh_message_deliveries, 0);
}

#[test]
fn duplicate_before_validation_is_credited_on_delivery() {
    let mut e = engine();
    let (a, b) = (peer("A"), peer("B"));
    e.add_peer(a.clone(), vec![]);
    e.add_peer(b.clone(), vec![]);
    e.graft(&a, &topic("T"), 0);
    e.graft(&b, &topic("T"), 0);
    let m = message("S", 4, &["T"]);
    e.duplicated_message(&b, &m, 100);
    assert_eq!(e.topic_stats(&b, &topic("T")).unwrap().mesh_message_deliveries, 0);
    e.deliver_message(&a, &m, 5000);
    let sb = e.topic_stats(&b, &topic("T")).unwrap();
    assert_eq!(sb.mesh_message_deliveries, SCALE);
    assert_eq!(sb.first_message_deliveries, 0);
    assert_eq!(e.topic_stats(&a, &topic("T")).unwrap().first_message_deliveries, SCALE);
}

#[test]
fn invalid_message_penalizes_all_relayers() {
    let mut e = engine();
    let (a, b) = (peer("A"), peer("B"));
    e.add_peer(a.clone(), vec![]);
    e.add_peer(b.clone(), vec![]);
    let m = message("S", 5, &["T"]);
    e.duplicated_message(&a, &m, 10);
    e.reject_message(&b, &m, RejectMsg::ValidationFailed, 20);
    assert_eq!(e.topic_stats(&a, &topic("T")).unwrap().invalid_message_deliveries, SCALE);
    assert_eq!(e.topic_stats(&b, &topic("T")).unwrap().invalid_message_deliveries, SCALE);
    // the square of one invalid delivery, weight -1, topic weight one half
    assert_eq!(e.score(&a), -(SCALE as i128) / 2);
}

#[test]
fn duplicate_of_invalid_message_is_charged() {
    let mut e = engine();
    let (a, b) = (peer("A"), peer("B"));
    e.add_peer(a.clone(), vec![]);
    e.add_peer(b.clone(), vec![]);
    let m = message("S", 6, &["T"]);
    e.reject_message(&b, &m, RejectMsg::ValidationFailed, 20);
    e.duplicated_message(&a, &m, 30);
    assert_eq!(e.topic_stats(&a, &topic("T")).unwrap().invalid_message_deliveries, SCALE);
}

#[test]
fn throttled_and_ignored_messages_charge_nobody() {
    let mut e = engine();
    let (a, b) = (peer("A"), peer("B"));
    e.add_peer(a.clone(), vec![]);
    e.add_peer(b.clone(), vec![]);
    e.graft(&a, &topic("T"), 0);
    let m = message("S", 7, &["T"]);
    e.duplicated_message(&a, &m, 10);
    e.reject_message(&b, &m, RejectMsg::ValidationThrottled, 20);
    e.duplicated_message(&a, &m, 30);
    let n = message("S", 8, &["T"]);
    e.reject_message(&b, &n, RejectMsg::ValidationIgnored, 20);
    e.duplicated_message(&a, &n, 30);
    // a later verdict on a settled message is dropped
    e.reject_message(&b, &n, RejectMsg::ValidationFailed, 40);
    e.deliver_message(&b, &m, 50);
    let sa = e.topic_stats(&a, &topic("T")).unwrap();
    assert_eq!(sa.invalid_message_deliveries, 0);
    assert_eq!(sa.mesh_message_deliveries, 0);
    let sb = e.topic_stats(&b, &topic("T")).unwrap();
    assert_eq!(sb.invalid_message_deliveries, 0);
    assert_eq!(sb.first_message_deliveries, SCALE);
}

#[test]
fn unrecorded_reject_reasons() {
    let mut e = engine();
    let a = peer("A");
    e.add_peer(a.clone(), vec![]);
    let m = message("S", 9, &["T"]);
    for reason in [
        RejectMsg::MissingSignature,
        RejectMsg::InvalidSignature,
        RejectMsg::BlacklistedPeer,
        RejectMsg::BlackListenSource,
        RejectMsg::ValidationQueueFull,
    ] {
        assert!(!reason.recorded());
        e.reject_message(&a, &m, reason, 10);
    }
    assert!(e.topic_stats(&a, &topic("T")).is_none());
    e.reject_message(&a, &m, RejectMsg::SelfOrigin, 10);
    assert_eq!(e.topic_stats(&a, &topic("T")).unwrap().invalid_message_deliveries, SCALE);
    // no record was opened: the message can still be delivered as valid
    e.graft(&a, &topic("T"), 10);
    e.deliver_message(&a, &m, 20);
    assert_eq!(e.topic_stats(&a, &topic("T")).unwrap().first_message_deliveries, SCALE);
    assert!(RejectMsg::ValidationFailed.recorded());
    assert!(RejectMsg::ValidationThrottled.recorded());
    assert!(RejectMsg::ValidationIgnored.recorded());
}

#[test]
fn ip_colocation() {
    let mut e = engine();
    let x = IpAddr::V4(0x0a00_0001);
    for name in ["A", "B", "C"] {
        e.add_peer(peer(name), vec![x]);
    }
    for name in ["A", "B", "C"] {
        assert_eq!(e.score(&peer(name)), -40 * (SCALE as i128));
    }
    assert_eq!(e.table.peers_at(x), 3);
    assert_eq!(e.table.peers_at(IpAddr::V4(1)), 0);
    let listed: Vec<String> = e.table.peers_of(x).iter().map(|p| p.to_base58()).collect();
    assert_eq!(listed, vec!["A", "B", "C"]);
    assert!(e.table.peers_of(IpAddr::V4(1)).is_empty());
    // a peer that gives the address twice is listed once
    e.add_peer(peer("D"), vec![x, x, IpAddr::V4(1)]);
    assert_eq!(e.table.peers_of(x).len(), 4);
    assert_eq!(e.table.peers_at(x), 4);
    // three addresses are charged: twice the four peers at x, once the single peer at 1
    assert_eq!(e.score(&peer("D")), -180 * (SCALE as i128));
}

#[test]
fn whitelisted_address_is_not_charged() {
    let mut p = params_with(topic_params());
    let x = IpAddr::V6(1);
    p.ip_colocation_factor_whitelist = vec![x];
    let mut e = PeerScore::new(p).unwrap();
    for name in ["A", "B", "C"] {
        e.add_peer(peer(name), vec![x]);
    }
    assert_eq!(e.score(&peer("A")), 0);
}

#[test]
fn sticky_mesh_failure_on_prune() {
    let mut e = engine();
    let a = peer("A");
    e.add_peer(a.clone(), vec![]);
    e.graft(&a, &topic("T"), 0);
    e.refresh_scores(1001);
    assert!(e.topic_stats(&a, &topic("T")).unwrap().mesh_message_deliveries_active);
    e.deliver_message(&a, &message("S", 10, &["T"]), 1002);
    e.deliver_message(&a, &message("S", 11, &["T"]), 1003);
    assert_eq!(e.topic_stats(&a, &topic("T")).unwrap().mesh_message_deliveries, 2 * SCALE);
    e.prune(&a, &topic("T"));
    let ts = e.topic_stats(&a, &topic("T")).unwrap();
    assert_eq!(ts.mesh_failure_penalty, 9 * SCALE);
    assert!(!ts.mesh_message_deliveries_active);
    assert_eq!(ts.mesh_status, MeshStatus::InActive);
}

#[test]
fn prune_before_activation_charges_nothing() {
    let mut e = engine();
    let a = peer("A");
    e.add_peer(a.clone(), vec![]);
    e.graft(&a, &topic("T"), 0);
    e.prune(&a, &topic("T"));
    assert_eq!(e.topic_stats(&a, &topic("T")).unwrap().mesh_failure_penalty, 0);
}

#[test]
fn retention_after_disconnect() {
    let mut e = engine();
    let a = peer("A");
    e.add_peer(a.clone(), vec![]);
    e.add_penalty(&a, 4);
    assert_eq!(e.score(&a), -16 * (SCALE as i128));
    e.remove_peer(&a, 0);
    assert_eq!(
        e.peer_stats(&a).unwrap().status,
        ConnectionStatus::Disconnected { expire: 60_000 }
    );
    e.refresh_scores(30_000);
    assert_eq!(e.peer_stats(&a).unwrap().behaviour_penalty, 4 * SCALE);
    e.refresh_scores(60_000);
    assert_eq!(e.peer_stats(&a).unwrap().behaviour_penalty, 4 * SCALE);
    e.refresh_scores(61_000);
    assert!(e.peer_stats(&a).is_none());
    assert_eq!(e.score(&a), 0);
}

#[test]
fn peer_with_positive_score_is_forgotten_at_once() {
    let mut e = engine();
    let (a, b) = (peer("A"), peer("B"));
    e.add_peer(a.clone(), vec![]);
    e.add_peer(b.clone(), vec![IpAddr::V4(7)]);
    e.deliver_message(&a, &message("S", 12, &["T"]), 5);
    assert!(e.score(&a) > 0);
    e.remove_peer(&a, 10);
    assert!(e.peer_stats(&a).is_none());
    assert!(e.peer_stats(&b).is_some());
    e.remove_peer(&peer("nobody"), 10);
    assert_eq!(e.table.peers.len(), 1);
}

#[test]
fn reconnect_keeps_negative_reputation() {
    let mut e = engine();
    let (a, b) = (peer("A"), peer("B"));
    e.add_peer(a.clone(), vec![]);
    e.add_peer(b.clone(), vec![]);
    e.add_penalty(&a, 2);
    e.graft(&a, &topic("T"), 0);
    e.reject_message(&a, &message("S", 13, &["T"]), RejectMsg::SelfOrigin, 1);
    e.remove_peer(&a, 5);
    e.add_peer(a.clone(), vec![IpAddr::V4(9)]);
    let s = e.peer_stats(&a).unwrap();
    assert_eq!(s.status, ConnectionStatus::Connected);
    assert_eq!(s.behaviour_penalty, 2 * SCALE);
    assert_eq!(s.known_ips, vec![IpAddr::V4(9)]);
    let ts = e.topic_stats(&a, &topic("T")).unwrap();
    assert_eq!(ts.invalid_message_deliveries, SCALE);
    assert_eq!(ts.first_message_deliveries, 0);
    assert_eq!(ts.mesh_status, MeshStatus::InActive);
}

#[test]
fn disconnect_charges_open_deficit() {
    let mut e = engine();
    let a = peer("A");
    e.add_peer(a.clone(), vec![]);
    e.graft(&a, &topic("T"), 0);
    e.refresh_scores(2000);
    // active, no deliveries: the deficit of 5 makes the score negative
    assert_eq!(e.score(&a), -25 * (SCALE as i128) / 2);
    e.remove_peer(&a, 2000);
    let ts = e.topic_stats(&a, &topic("T")).unwrap();
    assert_eq!(ts.mesh_failure_penalty, 25 * SCALE);
}

#[test]
fn duplicate_report_is_idempotent() {
    let mut e = engine();
    let (a, b) = (peer("A"), peer("B"));
    e.add_peer(a.clone(), vec![]);
    e.add_peer(b.clone(), vec![]);
    e.graft(&b, &topic("T"), 0);
    let m = message("S", 14, &["T"]);
    e.deliver_message(&a, &m, 100);
    e.duplicated_message(&b, &m, 101);
    let once = e.topic_stats(&b, &topic("T")).unwrap();
    e.duplicated_message(&b, &m, 102);
    assert_eq!(e.topic_stats(&b, &topic("T")).unwrap(), once);
    assert_eq!(once.mesh_message_deliveries, SCALE);
}

#[test]
fn delivery_counters_stop_at_their_caps() {
    let mut e = engine();
    let a = peer("A");
    e.add_peer(a.clone(), vec![]);
    e.graft(&a, &topic("T"), 0);
    for i in 0..15u8 {
        e.deliver_message(&a, &message("S", 100 + i, &["T"]), 5);
    }
    let ts = e.topic_stats(&a, &topic("T")).unwrap();
    assert_eq!(ts.first_message_deliveries, 10 * SCALE);
    assert_eq!(ts.mesh_message_deliveries, 10 * SCALE);
}

#[test]
fn refresh_decays_and_snaps_to_zero() {
    let mut e = engine();
    let a = peer("A");
    e.add_peer(a.clone(), vec![]);
    e.add_penalty(&a, 1);
    e.deliver_message(&a, &message("S", 15, &["T"]), 5);
    e.refresh_scores(10);
    assert_eq!(e.peer_stats(&a).unwrap().behaviour_penalty, 900_000);
    assert_eq!(e.topic_stats(&a, &topic("T")).unwrap().first_message_deliveries, 900_000);
    e.refresh_scores(20);
    assert_eq!(e.peer_stats(&a).unwrap().behaviour_penalty, 810_000);
    for i in 0..41u64 {
        e.refresh_scores(30 + i);
    }
    // 0.9^43 is about 0.0108, 0.9^44 is below the floor of 0.01
    assert!(e.peer_stats(&a).unwrap().behaviour_penalty >= 10_000);
    e.refresh_scores(100);
    assert_eq!(e.peer_stats(&a).unwrap().behaviour_penalty, 0);
    assert_eq!(e.topic_stats(&a, &topic("T")).unwrap().first_message_deliveries, 0);
}

#[test]
fn time_in_mesh_is_scored_in_quanta_up_to_the_cap() {
    let mut tp = topic_params();
    tp.time_in_mesh_weight = SCALE as i64;
    tp.topic_weight = SCALE;
    tp.mesh_message_deliveries_activation = 1_000_000;
    let mut e = PeerScore::new(params_with(tp)).unwrap();
    let a = peer("A");
    e.add_peer(a.clone(), vec![]);
    e.graft(&a, &topic("T"), 1000);
    assert_eq!(e.score(&a), 0);
    e.refresh_scores(6500);
    assert_eq!(
        e.topic_stats(&a, &topic("T")).unwrap().mesh_status,
        MeshStatus::Active { graft_time: 1000, mesh_time: 5500 }
    );
    assert_eq!(e.score(&a), 5_500_000);
    e.refresh_scores(100_000);
    assert_eq!(e.score(&a), 10 * (SCALE as i128));
}

#[test]
fn topic_score_cap_holds_the_topic_total() {
    let mut p = params_with(topic_params());
    p.topic_score_cap = 3 * SCALE;
    let mut e = PeerScore::new(p).unwrap();
    let a = peer("A");
    e.add_peer(a.clone(), vec![]);
    for i in 0..5u8 {
        e.deliver_message(&a, &message("S", 50 + i, &["T"]), 5);
    }
    // five first deliveries would give 5, the cap gives 3; the penalty comes on top
    assert_eq!(e.score(&a), 3 * (SCALE as i128));
    e.add_penalty(&a, 1);
    assert_eq!(e.score(&a), 2 * (SCALE as i128));
}

#[test]
fn blank_and_unknown_peers_score_zero() {
    let mut e = engine();
    assert_eq!(e.score(&peer("A")), 0);
    e.add_peer(peer("A"), vec![]);
    assert_eq!(e.score(&peer("A")), 0);
    e.add_penalty(&peer("nobody"), 3);
    e.graft(&peer("nobody"), &topic("T"), 0);
    e.prune(&peer("nobody"), &topic("T"));
    assert_eq!(e.table.peers.len(), 1);
}

#[test]
fn unscored_topic_is_ignored() {
    let mut e = engine();
    let a = peer("A");
    e.add_peer(a.clone(), vec![]);
    e.graft(&a, &topic("U"), 0);
    e.deliver_message(&a, &message("S", 16, &["U"]), 5);
    assert!(e.topic_stats(&a, &topic("U")).is_none());
    assert!(e.topic_stats(&a, &topic("T")).is_none());
    assert_eq!(e.score(&a), 0);
    e.join(&topic("T"));
    e.leave(&topic("T"));
    assert_eq!(e.score(&a), 0);
}

#[test]
fn addresses_can_be_changed_and_removed() {
    let mut e = engine();
    let (a, b) = (peer("A"), peer("B"));
    let (x, y) = (IpAddr::V4(1), IpAddr::V4(2));
    e.add_peer(a.clone(), vec![x, y]);
    e.add_peer(b.clone(), vec![x]);
    assert_eq!(e.table.peers_at(x), 2);
    e.remove_ips(&a, &vec![x]);
    assert_eq!(e.peer_stats(&a).unwrap().known_ips, vec![y]);
    assert_eq!(e.table.peers_at(x), 1);
    e.get_ips_mut(&b).unwrap().push(y);
    assert_eq!(e.table.peers_at(y), 2);
    assert!(e.get_ips_mut(&peer("nobody")).is_none());
    assert_eq!(e.score(&a), -10 * (SCALE as i128));
}

#[test]
fn validate_message_opens_a_record() {
    let mut e = engine();
    let a = peer("A");
    e.add_peer(a.clone(), vec![]);
    let m = message("S", 17, &["T"]);
    e.validate_message(&a, &m, 1);
    assert!(e.topic_stats(&a, &topic("T")).is_none());
    e.deliver_message(&a, &m, 2);
    assert_eq!(e.topic_stats(&a, &topic("T")).unwrap().first_message_deliveries, SCALE);
}

#[test]
fn explicit_fingerprints_separate_messages() {
    let mut e = engine();
    let (a, b) = (peer("A"), peer("B"));
    e.add_peer(a.clone(), vec![]);
    e.add_peer(b.clone(), vec![]);
    e.graft(&b, &topic("T"), 0);
    let topics = vec![topic("T")];
    e.deliver_message_with_id(&a, "one".to_string(), &topics, 1);
    e.duplicated_message_with_id(&b, "two".to_string(), &topics, 2);
    assert_eq!(e.topic_stats(&b, &topic("T")).unwrap().mesh_message_deliveries, 0);
    e.duplicated_message_with_id(&b, "one".to_string(), &topics, 3);
    assert_eq!(e.topic_stats(&b, &topic("T")).unwrap().mesh_message_deliveries, SCALE);
    e.reject_message_with_id(&a, "two".to_string(), &topics, RejectMsg::ValidationFailed, 4);
    assert_eq!(e.topic_stats(&b, &topic("T")).unwrap().invalid_message_deliveries, SCALE);
    e.validate_message_with_id(&a, "three".to_string(), 5);
}

#[test]
fn invalid_parameters_are_refused() {
    let mut p = params_with(topic_params());
    p.behaviour_penalty_weight = 1;
    assert_eq!(PeerScore::new(p).err(), Some(ParamsError::PositivePenaltyWeight));
    let mut p = params_with(topic_params());
    p.ip_colocation_factor_weight = 1;
    assert_eq!(p.validate(), Err(ParamsError::PositivePenaltyWeight));
    let mut p = params_with(topic_params());
    p.ip_colocation_factor_threshold = 0;
    assert_eq!(p.validate(), Err(ParamsError::ZeroColocationThreshold));
    let mut p = params_with(topic_params());
    p.behaviour_penalty_decay = SCALE;
    assert_eq!(p.validate(), Err(ParamsError::DecayOutOfRange));
    let mut p = params_with(topic_params());
    p.decay_to_zero = 0;
    assert_eq!(p.validate(), Err(ParamsError::ZeroDecayFloor));
    let mut p = params_with(topic_params());
    p.topics.push(topic("U"));
    assert_eq!(p.validate(), Err(ParamsError::TopicCountMismatch));
    let mut tp = topic_params();
    tp.time_in_mesh_quantum = 0;
    assert_eq!(params_with(tp).validate(), Err(ParamsError::ZeroQuantum));
    let mut tp = topic_params();
    tp.invalid_message_deliveries_weight = 1;
    assert_eq!(tp.validate(), Err(ParamsError::PositivePenaltyWeight));
    let mut tp = topic_params();
    tp.mesh_failure_penalty_decay = 0;
    assert_eq!(params_with(tp).validate(), Err(ParamsError::DecayOutOfRange));
    assert_eq!(params_with(topic_params()).validate(), Ok(()));
    assert_eq!(topic_params().validate(), Ok(()));
}

#[test]
fn a_topic_named_twice_counts_twice() {
    let mut e = engine();
    let a = peer("A");
    e.add_peer(a.clone(), vec![]);
    e.deliver_message(&a, &message("S", 60, &["T", "U", "T"]), 5);
    assert_eq!(e.topic_stats(&a, &topic("T")).unwrap().first_message_deliveries, 2 * SCALE);
    assert!(e.topic_stats(&a, &topic("U")).is_none());
}

#[test]
fn a_peer_noted_in_a_record_is_credited_once() {
    let mut e = engine();
    let (a, b) = (peer("A"), peer("B"));
    e.add_peer(a.clone(), vec![]);
    e.add_peer(b.clone(), vec![]);
    e.graft(&a, &topic("T"), 0);
    e.graft(&b, &topic("T"), 0);
    let m = message("S", 61, &["T"]);
    e.duplicated_message(&b, &m, 1);
    e.duplicated_message(&b, &m, 2);
    e.duplicated_message(&a, &m, 3);
    e.deliver_message(&a, &m, 4);
    // the deliverer earns the first delivery only, the observer one duplicate
    let sa = e.topic_stats(&a, &topic("T")).unwrap();
    assert_eq!((sa.first_message_deliveries, sa.mesh_message_deliveries), (SCALE, SCALE));
    let sb = e.topic_stats(&b, &topic("T")).unwrap();
    assert_eq!((sb.first_message_deliveries, sb.mesh_message_deliveries), (0, SCALE));
}

#[test]
fn disconnected_peer_does_not_decay() {
    let mut e = engine();
    let (a, b) = (peer("A"), peer("B"));
    e.add_peer(a.clone(), vec![]);
    e.add_peer(b.clone(), vec![]);
    e.reject_message(&a, &message("S", 62, &["T"]), RejectMsg::SelfOrigin, 1);
    e.reject_message(&b, &message("S", 62, &["T"]), RejectMsg::SelfOrigin, 1);
    e.remove_peer(&a, 10);
    e.refresh_scores(20);
    assert_eq!(e.topic_stats(&a, &topic("T")).unwrap().invalid_message_deliveries, SCALE);
    assert_eq!(e.topic_stats(&b, &topic("T")).unwrap().invalid_message_deliveries, 900_000);
}

#[test]
fn well_formedness_can_be_tested() {
    let mut e = engine();
    assert!(e.table.is_well_formed());
    e.add_peer(peer("A"), vec![]);
    e.add_peer(peer("B"), vec![IpAddr::V4(1)]);
    e.graft(&peer("A"), &topic("T"), 0);
    e.deliver_message(&peer("A"), &message("S", 70, &["T"]), 1);
    assert!(e.table.is_well_formed());
    // a counter above its cap
    let mut broken = e.table.stats[0].topics[0].unwrap();
    broken.first_message_deliveries = 11 * SCALE;
    e.table.stats[0].topics[0] = Some(broken);
    assert!(!e.table.is_well_formed());
    e.table.stats[0].topics[0] = None;
    assert!(e.table.is_well_formed());
    // a peer listed twice
    e.table.peers[1] = peer("A");
    assert!(!e.table.is_well_formed());
    e.table.peers[1] = peer("B");
    // a missing slot
    e.table.stats[1].topics.clear();
    assert!(!e.table.is_well_formed());
}
