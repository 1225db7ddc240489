//! Laws of the scoring engine, proved over the mathematical model of its state.

use vstd::prelude::*;
use crate::delivery::{DeliveryStatus, RecordView, RejectMsg};
use crate::fixed::{SCALE, lemma_scaled_mul_shrinks, lemma_weighted_bound, spec_decay, spec_scaled_mul};
use crate::ident::{
    IpAddr, distinct, first_at, lemma_position_found, lemma_position_of, position_of, topic_keys,
};
use crate::params::PeerScoreParams;
use crate::peer::PeerStatsView;
use crate::stats::{ConnectionStatus, Delivery};
use crate::table::{TableView, count_at, expired, peers_at, refreshed};

verus! {

/// In a well-formed table the first-delivery and mesh-delivery counters of every peer
/// on every scored topic are within the caps of that topic. Every operation of the
/// engine keeps the table well formed, so this holds after any sequence of events.
pub proof fn lemma_deliveries_within_caps(
    t: TableView,
    params: PeerScoreParams,
    peer: Seq<char>,
    topic: Seq<char>,
)
    requires
        t.wf(params),
    ensures
        match t.get(peer) {
            Some(v) => match v.topic_stats(params, topic) {
                Some(ts) => {
                    let tp = params.topic_params[params.topic_index(topic).unwrap()];
                    ts.first_message_deliveries <= tp.first_message_deliveries_cap
                        && ts.mesh_message_deliveries <= tp.mesh_message_deliveries_cap
                },
                None => true,
            },
            None => true,
        },
{
    lemma_position_of(t.keys, peer);
    lemma_position_of(crate::ident::topic_keys(params.topics@), topic);
    match position_of(t.keys, peer) {
        Some(i) => {
            assert(t.stats[i].wf(params));
        },
        None => {},
    }
}

/// A decay step never makes a counter negative and never raises it, and what it
/// leaves is zero or at least the floor.
pub proof fn lemma_decay_in_range(c: u64, factor: u64, floor: u64)
    requires
        factor <= SCALE,
    ensures
        0 <= spec_decay(c, factor, floor) <= c,
        spec_decay(c, factor, floor) == 0 || spec_decay(c, factor, floor) >= floor,
{
    lemma_scaled_mul_shrinks(c, factor);
}

/// One refresh of a peer leaves each of its counters between zero and its old value.
pub proof fn lemma_refresh_counters_in_range(
    v: PeerStatsView,
    params: PeerScoreParams,
    now: u64,
    i: int,
)
    requires
        params.valid(),
        v.wf(params),
        0 <= i < v.topics.len(),
        v.topics[i].is_some(),
    ensures
        refreshed(v, params, now).topics[i].is_some(),
        0 <= refreshed(v, params, now).behaviour_penalty <= v.behaviour_penalty,
        ({
            let a = v.topics[i].unwrap();
            let b = refreshed(v, params, now).topics[i].unwrap();
            &&& 0 <= b.first_message_deliveries <= a.first_message_deliveries
            &&& 0 <= b.mesh_message_deliveries <= a.mesh_message_deliveries
            &&& 0 <= b.mesh_failure_penalty <= a.mesh_failure_penalty
            &&& 0 <= b.invalid_message_deliveries <= a.invalid_message_deliveries
        }),
{
    let tp = params.topic_params[i];
    let a = v.topics[i].unwrap();
    assert(tp.valid());
    lemma_scaled_mul_shrinks(v.behaviour_penalty, params.behaviour_penalty_decay);
    lemma_scaled_mul_shrinks(a.first_message_deliveries, tp.first_message_deliveries_decay);
    lemma_scaled_mul_shrinks(a.mesh_message_deliveries, tp.mesh_message_deliveries_decay);
    lemma_scaled_mul_shrinks(a.mesh_failure_penalty, tp.mesh_failure_penalty_decay);
    lemma_scaled_mul_shrinks(a.invalid_message_deliveries, tp.invalid_message_deliveries_decay);
}

proof fn lemma_empty_topics_total(v: PeerStatsView, params: PeerScoreParams, n: nat)
    requires
        n <= v.topics.len(),
        forall|i: int| 0 <= i < v.topics.len() ==> v.topics[i].is_none(),
    ensures
        v.topics_total(params, n) == 0,
    decreases n,
{
    if n > 0 {
        lemma_empty_topics_total(v, params, (n - 1) as nat);
    }
}

/// A known peer without behaviour penalty, without stats on any topic and without
/// addresses has the score zero.
pub proof fn lemma_blank_peer_scores_zero(t: TableView, params: PeerScoreParams, peer: Seq<char>)
    requires
        t.get(peer).is_some(),
        t.get(peer).unwrap().behaviour_penalty == 0,
        t.get(peer).unwrap().known_ips.len() == 0,
        forall|i: int|
            0 <= i < t.get(peer).unwrap().topics.len() ==> t.get(peer).unwrap().topics[i].is_none(),
    ensures
        t.score(params, peer) == 0,
{
    let v = t.get(peer).unwrap();
    lemma_empty_topics_total(v, params, v.topics.len());
    lemma_weighted_bound(spec_scaled_mul(0, 0), params.behaviour_penalty_weight);
    assert(spec_scaled_mul(0, 0) == 0) by (nonlinear_arith)
        requires
            spec_scaled_mul(0, 0) == crate::fixed::clamp_u64((0int * 0int) / (SCALE as int)),
            SCALE == 1_000_000,
    ;
}

/// A peer that is not known has the score zero.
pub proof fn lemma_unknown_peer_scores_zero(t: TableView, params: PeerScoreParams, peer: Seq<char>)
    requires
        t.get(peer).is_none(),
    ensures
        t.score(params, peer) == 0,
{
}

/// A peer is listed under an address exactly if it is known and the address is one of
/// its known addresses.
pub proof fn lemma_address_index_agrees(t: TableView, peer: Seq<char>, ip: IpAddr)
    ensures
        peers_at(t, ip).contains(peer) <==> (t.get(peer).is_some() && t.get(
            peer,
        ).unwrap().known_ips.contains(ip)),
{
}

/// Those of the first `n` peers of the table that are known at `ip`.
pub open spec fn listed_at(t: TableView, ip: IpAddr, n: nat) -> Set<Seq<char>>
    decreases n,
{
    if n == 0 {
        Set::empty()
    } else if t.stats[n - 1].known_ips.contains(ip) {
        listed_at(t, ip, (n - 1) as nat).insert(t.keys[n - 1])
    } else {
        listed_at(t, ip, (n - 1) as nat)
    }
}

proof fn lemma_listed_at(t: TableView, ip: IpAddr, n: nat)
    requires
        t.keys.len() == t.stats.len(),
        distinct(t.keys),
        n <= t.keys.len(),
    ensures
        listed_at(t, ip, n).finite(),
        listed_at(t, ip, n).len() == count_at(t.stats, ip, n),
        forall|p: Seq<char>|
            listed_at(t, ip, n).contains(p) <==> exists|m: int|
                0 <= m < n && #[trigger] t.keys[m] == p && t.stats[m].known_ips.contains(ip),
    decreases n,
{
    if n > 0 {
        lemma_listed_at(t, ip, (n - 1) as nat);
        let before = listed_at(t, ip, (n - 1) as nat);
        let now = listed_at(t, ip, n);
        if t.stats[n - 1].known_ips.contains(ip) {
            if before.contains(t.keys[n - 1]) {
                let m = choose|m: int|
                    0 <= m < n - 1 && #[trigger] t.keys[m] == t.keys[n - 1]
                        && t.stats[m].known_ips.contains(ip);
                assert(m == n - 1);
            }
        }
        assert forall|p: Seq<char>|
            now.contains(p) <==> exists|m: int|
                0 <= m < n && #[trigger] t.keys[m] == p && t.stats[m].known_ips.contains(
                    ip,
                ) by {
            if now.contains(p) {
                if before.contains(p) {
                    let m = choose|m: int|
                        0 <= m < n - 1 && #[trigger] t.keys[m] == p
                            && t.stats[m].known_ips.contains(ip);
                    assert(0 <= m < n && t.keys[m] == p && t.stats[m].known_ips.contains(ip));
                } else {
                    assert(t.keys[n - 1] == p && t.stats[n - 1].known_ips.contains(ip));
                }
            }
            if exists|m: int|
                0 <= m < n && #[trigger] t.keys[m] == p && t.stats[m].known_ips.contains(ip) {
                let m = choose|m: int|
                    0 <= m < n && #[trigger] t.keys[m] == p && t.stats[m].known_ips.contains(ip);
                if m < n - 1 {
                    assert(before.contains(p));
                }
            }
        }
    }
}

/// The number of peers that the score counts at an address is the size of the set of
/// peers listed under that address.
pub proof fn lemma_count_is_size_of_index(t: TableView, params: PeerScoreParams, ip: IpAddr)
    requires
        t.wf(params),
    ensures
        peers_at(t, ip).finite(),
        peers_at(t, ip).len() == count_at(t.stats, ip, t.stats.len()),
{
    let n = t.keys.len();
    lemma_listed_at(t, ip, n);
    assert forall|p: Seq<char>| peers_at(t, ip).contains(p) <==> listed_at(t, ip, n).contains(
        p,
    ) by {
        lemma_position_of(t.keys, p);
        if listed_at(t, ip, n).contains(p) {
            let m = choose|m: int|
                0 <= m < n && #[trigger] t.keys[m] == p && t.stats[m].known_ips.contains(ip);
            assert(first_at(t.keys, p, m)) by {
                assert forall|k: int| 0 <= k < m implies t.keys[k] != p by {
                    if t.keys[k] == p {
                        assert(t.keys[k] == t.keys[m]);
                    }
                }
            }
            lemma_position_found(t.keys, p, m);
        }
        if peers_at(t, ip).contains(p) {
            let i = position_of(t.keys, p).unwrap();
            assert(0 <= i < n && t.keys[i] == p && t.stats[i].known_ips.contains(ip));
        }
    }
    assert(peers_at(t, ip) =~= listed_at(t, ip, n));
}

/// What the first `n` peers leave after a refresh: as many keys as stats, no key twice,
/// and each key one of the first `n` keys of the table.
proof fn lemma_refresh_shape(t: TableView, params: PeerScoreParams, now: u64, n: nat)
    requires
        t.keys.len() == t.stats.len(),
        distinct(t.keys),
        n <= t.keys.len(),
    ensures
        t.after_refresh(params, now, n).keys.len() == t.after_refresh(params, now, n).stats.len(),
        distinct(t.after_refresh(params, now, n).keys),
        forall|j: int|
            0 <= j < t.after_refresh(params, now, n).keys.len() ==> exists|m: int|
                0 <= m < n && t.keys[m] == #[trigger] t.after_refresh(params, now, n).keys[j],
    decreases n,
{
    if n > 0 {
        let r = t.after_refresh(params, now, (n - 1) as nat);
        lemma_refresh_shape(t, params, now, (n - 1) as nat);
        let s = t.after_refresh(params, now, n);
        if !expired(t.stats[n - 1], now) {
            assert forall|j: int| 0 <= j < s.keys.len() implies exists|m: int|
                0 <= m < n && t.keys[m] == #[trigger] s.keys[j] by {
                if j < r.keys.len() {
                    let m = choose|m: int| 0 <= m < n - 1 && t.keys[m] == r.keys[j];
                    assert(0 <= m < n && t.keys[m] == s.keys[j]);
                } else {
                    assert(t.keys[n - 1] == s.keys[j]);
                }
            }
            assert forall|a: int, b: int|
                0 <= a < s.keys.len() && 0 <= b < s.keys.len() && s.keys[a] == s.keys[b] implies a
                == b by {
                if a < r.keys.len() && b == r.keys.len() {
                    let m = choose|m: int| 0 <= m < n - 1 && t.keys[m] == r.keys[a];
                    assert(t.keys[m] == t.keys[n - 1]);
                }
                if b < r.keys.len() && a == r.keys.len() {
                    let m = choose|m: int| 0 <= m < n - 1 && t.keys[m] == r.keys[b];
                    assert(t.keys[m] == t.keys[n - 1]);
                }
            }
        } else {
            assert forall|j: int| 0 <= j < s.keys.len() implies exists|m: int|
                0 <= m < n && t.keys[m] == #[trigger] s.keys[j] by {
                let m = choose|m: int| 0 <= m < n - 1 && t.keys[m] == r.keys[j];
                assert(0 <= m < n && t.keys[m] == s.keys[j]);
            }
        }
    }
}

/// A peer at position `i` that has not expired stands, after the refresh of the first
/// `n` peers, at some position with its refreshed stats.
proof fn lemma_refresh_keeps(t: TableView, params: PeerScoreParams, now: u64, n: nat, i: int)
    requires
        t.keys.len() == t.stats.len(),
        distinct(t.keys),
        0 <= i < n <= t.keys.len(),
        !expired(t.stats[i], now),
    ensures
        exists|j: int|
            0 <= j < t.after_refresh(params, now, n).keys.len() && t.after_refresh(
                params,
                now,
                n,
            ).keys[j] == t.keys[i] && t.after_refresh(params, now, n).stats[j] == refreshed(
                t.stats[i],
                params,
                now,
            ),
    decreases n,
{
    let r = t.after_refresh(params, now, (n - 1) as nat);
    let s = t.after_refresh(params, now, n);
    lemma_refresh_shape(t, params, now, (n - 1) as nat);
    if i == n - 1 {
        let j = r.keys.len() as int;
        assert(s.keys[j] == t.keys[i] && s.stats[j] == refreshed(t.stats[i], params, now));
    } else {
        lemma_refresh_keeps(t, params, now, (n - 1) as nat, i);
        let j = choose|j: int|
            0 <= j < r.keys.len() && r.keys[j] == t.keys[i] && r.stats[j] == refreshed(
                t.stats[i],
                params,
                now,
            );
        assert(s.keys[j] == t.keys[i] && s.stats[j] == refreshed(t.stats[i], params, now));
    }
}

/// A refresh at `now` gives every peer that has not expired its refreshed stats.
pub proof fn lemma_refresh_of_peer(t: TableView, params: PeerScoreParams, now: u64, peer: Seq<char>)
    requires
        t.wf(params),
        t.get(peer).is_some(),
        !expired(t.get(peer).unwrap(), now),
    ensures
        t.after_refresh(params, now, t.keys.len()).get(peer) == Some(
            refreshed(t.get(peer).unwrap(), params, now),
        ),
{
    lemma_position_of(t.keys, peer);
    let i = position_of(t.keys, peer).unwrap();
    let s = t.after_refresh(params, now, t.keys.len());
    lemma_refresh_shape(t, params, now, t.keys.len());
    lemma_refresh_keeps(t, params, now, t.keys.len(), i);
    let j = choose|j: int|
        0 <= j < s.keys.len() && s.keys[j] == t.keys[i] && s.stats[j] == refreshed(
            t.stats[i],
            params,
            now,
        );
    assert(first_at(s.keys, peer, j)) by {
        assert forall|k: int| 0 <= k < j implies s.keys[k] != peer by {
            if s.keys[k] == peer {
                assert(s.keys[k] == s.keys[j]);
            }
        }
    }
    lemma_position_found(s.keys, peer, j);
}

/// The counters of a disconnected peer do not change across a refresh that comes
/// before its retention has run out.
pub proof fn lemma_disconnected_peer_is_frozen(
    t: TableView,
    params: PeerScoreParams,
    now: u64,
    peer: Seq<char>,
    expire: u64,
)
    requires
        t.wf(params),
        t.get(peer).is_some(),
        t.get(peer).unwrap().status == (ConnectionStatus::Disconnected { expire }),
        now <= expire,
    ensures
        t.after_refresh(params, now, t.keys.len()).get(peer) == t.get(peer),
{
    lemma_refresh_of_peer(t, params, now, peer);
}

/// A peer whose retention has run out is forgotten by the next refresh.
pub proof fn lemma_expired_peer_is_forgotten(
    t: TableView,
    params: PeerScoreParams,
    now: u64,
    peer: Seq<char>,
)
    requires
        t.wf(params),
        t.get(peer).is_some(),
        expired(t.get(peer).unwrap(), now),
    ensures
        t.after_refresh(params, now, t.keys.len()).get(peer).is_none(),
{
    lemma_position_of(t.keys, peer);
    let i = position_of(t.keys, peer).unwrap();
    let s = t.after_refresh(params, now, t.keys.len());
    lemma_refresh_drops(t, params, now, t.keys.len(), i);
    lemma_position_of(s.keys, peer);
}

proof fn lemma_refresh_drops(t: TableView, params: PeerScoreParams, now: u64, n: nat, i: int)
    requires
        t.keys.len() == t.stats.len(),
        distinct(t.keys),
        0 <= i < t.keys.len(),
        n <= t.keys.len(),
        expired(t.stats[i], now),
    ensures
        forall|j: int|
            0 <= j < t.after_refresh(params, now, n).keys.len() ==> t.after_refresh(
                params,
                now,
                n,
            ).keys[j] != t.keys[i],
    decreases n,
{
    if n > 0 {
        lemma_refresh_drops(t, params, now, (n - 1) as nat, i);
        let r = t.after_refresh(params, now, (n - 1) as nat);
        let s = t.after_refresh(params, now, n);
        assert forall|j: int| 0 <= j < s.keys.len() implies s.keys[j] != t.keys[i] by {
            if j < r.keys.len() {
                assert(s.keys[j] == r.keys[j]);
            } else {
                assert(s.keys[j] == t.keys[n - 1]);
                if t.keys[n - 1] == t.keys[i] {
                    assert(n - 1 == i);
                }
            }
        }
    }
}

/// A peer that disconnects with a score of zero or less and connects again is
/// connected with its behaviour penalty and its counts of invalid messages as they
/// were.
pub proof fn lemma_reconnect_keeps_penalties(
    t: TableView,
    params: PeerScoreParams,
    peer: Seq<char>,
    now: u64,
    ips: Seq<IpAddr>,
)
    requires
        t.wf(params),
        t.get(peer).is_some(),
        t.score(params, peer) <= 0,
    ensures
        ({
            let before = t.get(peer).unwrap();
            let after = t.after_remove(params, peer, now).with_peer(params, peer, ips).get(peer);
            &&& after.is_some()
            &&& after.unwrap().status == ConnectionStatus::Connected
            &&& after.unwrap().known_ips == ips
            &&& after.unwrap().behaviour_penalty == before.behaviour_penalty
            &&& after.unwrap().topics.len() == before.topics.len()
            &&& forall|i: int|
                0 <= i < before.topics.len() ==> match #[trigger] before.topics[i] {
                    Some(ts) => after.unwrap().topics[i].is_some()
                        && after.unwrap().topics[i].unwrap().invalid_message_deliveries
                        == ts.invalid_message_deliveries,
                    None => after.unwrap().topics[i].is_none(),
                }
        }),
{
    lemma_position_of(t.keys, peer);
}

/// A second report of the same duplicate changes nothing, unless the message is
/// known to be invalid: then each report is charged.
pub proof fn lemma_duplicate_is_idempotent(
    t: TableView,
    params: PeerScoreParams,
    from: Seq<char>,
    topics: Seq<Seq<char>>,
    rec: RecordView,
    first: u64,
    second: u64,
)
    requires
        rec.status != DeliveryStatus::Invalid,
    ensures
        t.after_duplicate(params, from, topics, rec, first).after_duplicate(
            params,
            from,
            topics,
            rec.relayed(from),
            second,
        ) == t.after_duplicate(params, from, topics, rec, first),
        rec.relayed(from).relayed(from) == rec.relayed(from),
{
    if !rec.peers.contains(from) && (rec.status == DeliveryStatus::Unknown || rec.status
        == DeliveryStatus::Valid) {
        assert(rec.peers.push(from)[rec.peers.len() as int] == from);
        assert(rec.relayed(from).peers.contains(from));
    }
}

/// The fate of a message is settled once: a record that is no longer open is changed
/// neither by a later delivery nor by a later rejection, and a relay never changes
/// the status.
pub proof fn lemma_verdict_is_final(rec: RecordView, now: u64, reason: RejectMsg, from: Seq<char>)
    ensures
        rec.status != DeliveryStatus::Unknown ==> rec.delivered(now) == rec && rec.rejected(reason)
            == rec,
        rec.relayed(from).status == rec.status,
        rec.delivered(now).status != DeliveryStatus::Unknown,
        rec.rejected(reason).status != DeliveryStatus::Unknown,
{
}

/// Reports on the topics of a message keep the stats of a peer well formed.
pub proof fn lemma_marked_all_keeps_wf(
    v: PeerStatsView,
    params: PeerScoreParams,
    topics: Seq<Seq<char>>,
    kind: Delivery,
)
    requires
        v.wf(params),
    ensures
        v.marked_all(params, topics, kind).wf(params),
    decreases topics.len(),
{
    if topics.len() > 0 {
        lemma_marked_all_keeps_wf(v, params, topics.drop_last(), kind);
        lemma_position_of(topic_keys(params.topics@), topics.last());
    }
}

/// New stats for a known peer keep the table well formed if they are well formed.
pub proof fn lemma_set_keeps_wf(
    t: TableView,
    params: PeerScoreParams,
    peer: Seq<char>,
    v: PeerStatsView,
)
    requires
        t.wf(params),
        v.wf(params),
    ensures
        t.set(peer, v).wf(params),
{
    lemma_position_of(t.keys, peer);
}

/// A report of one peer keeps the table well formed.
pub proof fn lemma_marked_keeps_wf(
    t: TableView,
    params: PeerScoreParams,
    peer: Seq<char>,
    topics: Seq<Seq<char>>,
    kind: Delivery,
)
    requires
        t.wf(params),
    ensures
        t.marked(params, peer, topics, kind).wf(params),
{
    lemma_position_of(t.keys, peer);
    if t.get(peer).is_some() {
        let v = t.get(peer).unwrap();
        assert(v.wf(params));
        lemma_marked_all_keeps_wf(v, params, topics, kind);
        lemma_set_keeps_wf(t, params, peer, v.marked_all(params, topics, kind));
    }
}

/// Reports of several peers keep the table well formed.
pub proof fn lemma_marked_each_keeps_wf(
    t: TableView,
    params: PeerScoreParams,
    peers: Seq<Seq<char>>,
    except: Option<Seq<char>>,
    topics: Seq<Seq<char>>,
    kind: Delivery,
)
    requires
        t.wf(params),
    ensures
        t.marked_each(params, peers, except, topics, kind).wf(params),
    decreases peers.len(),
{
    if peers.len() > 0 {
        lemma_marked_each_keeps_wf(t, params, peers.drop_last(), except, topics, kind);
        lemma_marked_keeps_wf(
            t.marked_each(params, peers.drop_last(), except, topics, kind),
            params,
            peers.last(),
            topics,
            kind,
        );
    }
}

proof fn lemma_refresh_stats_wf(t: TableView, params: PeerScoreParams, now: u64, n: nat)
    requires
        params.valid(),
        t.wf(params),
        n <= t.keys.len(),
    ensures
        t.after_refresh(params, now, n).keys.len() == t.after_refresh(params, now, n).stats.len(),
        forall|j: int|
            0 <= j < t.after_refresh(params, now, n).stats.len() ==> (#[trigger] t.after_refresh(
                params,
                now,
                n,
            ).stats[j]).wf(params),
    decreases n,
{
    if n > 0 {
        lemma_refresh_stats_wf(t, params, now, (n - 1) as nat);
        let r = t.after_refresh(params, now, (n - 1) as nat);
        let s = t.after_refresh(params, now, n);
        let v = t.stats[n - 1];
        assert(v.wf(params));
        let w = refreshed(v, params, now);
        assert(w.wf(params)) by {
            assert forall|i: int| 0 <= i < w.topics.len() implies match #[trigger] w.topics[i] {
                Some(ts) => ts.capped(params.topic_params[i]),
                None => true,
            } by {
                if v.topics[i].is_some() {
                    let a = v.topics[i].unwrap();
                    let tp = params.topic_params[i];
                    assert(tp.valid());
                    lemma_scaled_mul_shrinks(
                        a.first_message_deliveries,
                        tp.first_message_deliveries_decay,
                    );
                    lemma_scaled_mul_shrinks(
                        a.mesh_message_deliveries,
                        tp.mesh_message_deliveries_decay,
                    );
                }
            }
        }
        assert forall|j: int| 0 <= j < s.stats.len() implies (#[trigger] s.stats[j]).wf(params) by {
            if j < r.stats.len() {
                assert(s.stats[j] == r.stats[j]);
            }
        }
    }
}

/// Every event of the engine keeps the peer table well formed: as many stats as
/// peers, no peer twice, one slot for each scored topic, and the delivery counters
/// within their caps.
pub proof fn lemma_events_keep_wf(
    t: TableView,
    params: PeerScoreParams,
    peer: Seq<char>,
    topic: Seq<char>,
    topics: Seq<Seq<char>>,
    ips: Seq<IpAddr>,
    rec: RecordView,
    reason: RejectMsg,
    count: usize,
    now: u64,
)
    requires
        params.valid(),
        t.wf(params),
    ensures
        t.with_peer(params, peer, ips).wf(params),
        t.after_remove(params, peer, now).wf(params),
        t.after_refresh(params, now, t.keys.len()).wf(params),
        t.after_delivery(params, peer, topics, rec, now).wf(params),
        t.after_duplicate(params, peer, topics, rec, now).wf(params),
        t.after_reject(params, peer, topics, reason, rec).wf(params),
        t.after_unrecorded_reject(params, peer, topics, reason).wf(params),
        t.get(peer).is_some() ==> t.set(
            peer,
            t.get(peer).unwrap().grafted(params, topic, now),
        ).wf(params) && t.set(peer, t.get(peer).unwrap().pruned(params, topic)).wf(params) && t.set(
            peer,
            t.get(peer).unwrap().penalised(count),
        ).wf(params),
{
    lemma_position_of(t.keys, peer);
    lemma_position_of(topic_keys(params.topics@), topic);
    // connecting
    if t.get(peer).is_none() {
        let fresh = PeerStatsView::fresh(params.topics.len() as nat, ips);
        assert(fresh.wf(params));
        let u = t.with_peer(params, peer, ips);
        assert forall|i: int| 0 <= i < u.stats.len() implies (#[trigger] u.stats[i]).wf(params) by {
            if i < t.stats.len() {
                assert(u.stats[i] == t.stats[i]);
            }
        }
    } else {
        let v = t.get(peer).unwrap();
        assert(v.wf(params));
        lemma_set_keeps_wf(
            t,
            params,
            peer,
            PeerStatsView { status: ConnectionStatus::Connected, known_ips: ips, ..v },
        );
        lemma_set_keeps_wf(t, params, peer, v.grafted(params, topic, now));
        lemma_set_keeps_wf(t, params, peer, v.pruned(params, topic));
        lemma_set_keeps_wf(t, params, peer, v.penalised(count));
        // disconnecting
        lemma_set_keeps_wf(t, params, peer, v.retired(params, now));
        let i = position_of(t.keys, peer).unwrap();
        let w = t.without(peer);
        assert forall|j: int| 0 <= j < w.stats.len() implies (#[trigger] w.stats[j]).wf(params) by {
            if j < i {
                assert(w.stats[j] == t.stats[j]);
            } else {
                assert(w.stats[j] == t.stats[j + 1]);
            }
        }
        assert(distinct(w.keys)) by {
            assert forall|a: int, b: int|
                0 <= a < w.keys.len() && 0 <= b < w.keys.len() && w.keys[a]
                    == w.keys[b] implies a == b by {
                let a0 = if a < i { a } else { a + 1 };
                let b0 = if b < i { b } else { b + 1 };
                assert(t.keys[a0] == t.keys[b0]);
            }
        }
    }
    // refreshing
    lemma_refresh_shape(t, params, now, t.keys.len());
    lemma_refresh_stats_wf(t, params, now, t.keys.len());
    // reports of messages
    lemma_marked_keeps_wf(t, params, peer, topics, Delivery::First);
    lemma_marked_each_keeps_wf(
        t.marked(params, peer, topics, Delivery::First),
        params,
        rec.peers,
        Some(peer),
        topics,
        Delivery::Duplicate { validated: None, now },
    );
    lemma_marked_keeps_wf(
        t,
        params,
        peer,
        topics,
        Delivery::Duplicate { validated: Some(rec.validated), now },
    );
    lemma_marked_keeps_wf(t, params, peer, topics, Delivery::Invalid);
    lemma_marked_each_keeps_wf(
        t.marked(params, peer, topics, Delivery::Invalid),
        params,
        rec.peers,
        None,
        topics,
        Delivery::Invalid,
    );
}

} // verus!
