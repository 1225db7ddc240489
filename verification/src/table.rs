//! The table of known peers and the events that change it.

use vstd::prelude::*;
use crate::fixed::{clamp_i128, sat_add_i128, scaled_mul, spec_scaled_mul, spec_weighted, weighted};
use crate::ident::{
    IpAddr, PeerId, TopicHash, contains_ip, distinct, find_peer, lemma_position_of, peer_keys,
    position_of, topic_keys,
};
use crate::params::{ParamsError, PeerScoreParams};
use crate::peer::{PeerStats, PeerStatsView, spec_units, units};
use crate::stats::{ConnectionStatus, Delivery};

verus! {

/// The known peers and the stats of each, in the order in which they became known.
pub struct PeerTable {
    pub params: PeerScoreParams,
    pub peers: Vec<PeerId>,
    pub stats: Vec<PeerStats>,
}

/// The table as a mathematical value: `stats[i]` belongs to the peer `keys[i]`.
pub struct TableView {
    pub keys: Seq<Seq<char>>,
    pub stats: Seq<PeerStatsView>,
}

/// The stats of a disconnected peer are dropped once `now` is past their expiry.
pub open spec fn expired(v: PeerStatsView, now: u64) -> bool {
    match v.status {
        ConnectionStatus::Connected => false,
        ConnectionStatus::Disconnected { expire } => now > expire,
    }
}

/// One refresh of the stats of a peer that stays: those of a connected peer decay,
/// those of a disconnected peer are kept as they are.
pub open spec fn refreshed(v: PeerStatsView, params: PeerScoreParams, now: u64) -> PeerStatsView {
    match v.status {
        ConnectionStatus::Connected => v.decayed(params, now),
        ConnectionStatus::Disconnected { expire: _ } => v,
    }
}

/// How many of the first `n` peers are known at `ip`.
pub open spec fn count_at(stats: Seq<PeerStatsView>, ip: IpAddr, n: nat) -> nat
    decreases n,
{
    if n == 0 {
        0
    } else {
        count_at(stats, ip, (n - 1) as nat) + if stats[n - 1].known_ips.contains(ip) {
            1nat
        } else {
            0nat
        }
    }
}

/// What `count` peers at one address take from the score of each: nothing for a
/// whitelisted address or a count within the threshold, else the squared surplus
/// times the colocation weight.
pub open spec fn colocation_term(params: PeerScoreParams, ip: IpAddr, count: nat) -> int {
    let n = spec_units(count as usize);
    if params.ip_colocation_factor_whitelist@.contains(ip) || n <= params.ip_colocation_factor_threshold {
        0
    } else {
        let surplus = (n - params.ip_colocation_factor_threshold) as u64;
        spec_weighted(spec_scaled_mul(surplus, surplus), params.ip_colocation_factor_weight)
    }
}

/// The peers observed at `ip`: the index of peers by address, read off the table.
pub open spec fn peers_at(t: TableView, ip: IpAddr) -> Set<Seq<char>> {
    Set::new(
        |p: Seq<char>|
            match t.get(p) {
                Some(v) => v.known_ips.contains(ip),
                None => false,
            },
    )
}

/// `p` is one of the first `j` peers of the table and is known at `ip`.
pub open spec fn listed_before(t: TableView, ip: IpAddr, j: int, p: Seq<char>) -> bool {
    exists|m: int| 0 <= m < j && t.keys[m] == p && t.stats[m].known_ips.contains(ip)
}

/// The addresses of `known` that are not among `gone`, in their order.
pub open spec fn remaining_ips(known: Seq<IpAddr>, gone: Seq<IpAddr>) -> Seq<IpAddr>
    decreases known.len(),
{
    if known.len() == 0 {
        known
    } else if gone.contains(known.last()) {
        remaining_ips(known.drop_last(), gone)
    } else {
        remaining_ips(known.drop_last(), gone).push(known.last())
    }
}

impl TableView {
    pub open spec fn wf(self, params: PeerScoreParams) -> bool {
        &&& self.keys.len() == self.stats.len()
        &&& distinct(self.keys)
        &&& forall|i: int| 0 <= i < self.stats.len() ==> (#[trigger] self.stats[i]).wf(params)
    }

    /// The stats of `peer`, if it is known.
    pub open spec fn get(self, peer: Seq<char>) -> Option<PeerStatsView> {
        match position_of(self.keys, peer) {
            Some(i) => Some(self.stats[i]),
            None => None,
        }
    }

    /// The table with `v` as the stats of `peer`; unchanged if `peer` is not known.
    pub open spec fn set(self, peer: Seq<char>, v: PeerStatsView) -> TableView {
        match position_of(self.keys, peer) {
            Some(i) => TableView { stats: self.stats.update(i, v), ..self },
            None => self,
        }
    }

    /// The table without `peer`.
    pub open spec fn without(self, peer: Seq<char>) -> TableView {
        match position_of(self.keys, peer) {
            Some(i) => TableView { keys: self.keys.remove(i), stats: self.stats.remove(i) },
            None => self,
        }
    }

    /// `peer` reports a relayed message on `topics`.
    pub open spec fn marked(
        self,
        params: PeerScoreParams,
        peer: Seq<char>,
        topics: Seq<Seq<char>>,
        kind: Delivery,
    ) -> TableView {
        match self.get(peer) {
            Some(v) => self.set(peer, v.marked_all(params, topics, kind)),
            None => self,
        }
    }

    /// Each of `peers` but `except` reports a relayed message on `topics`, in order.
    pub open spec fn marked_each(
        self,
        params: PeerScoreParams,
        peers: Seq<Seq<char>>,
        except: Option<Seq<char>>,
        topics: Seq<Seq<char>>,
        kind: Delivery,
    ) -> TableView
        decreases peers.len(),
    {
        if peers.len() == 0 {
            self
        } else {
            let t = self.marked_each(params, peers.drop_last(), except, topics, kind);
            if except == Some(peers.last()) {
                t
            } else {
                t.marked(params, peers.last(), topics, kind)
            }
        }
    }

    /// `peer` connects from `ips`: a known peer keeps its counters.
    pub open spec fn with_peer(self, params: PeerScoreParams, peer: Seq<char>, ips: Seq<IpAddr>)
        -> TableView {
        match self.get(peer) {
            Some(v) => self.set(
                peer,
                PeerStatsView { status: ConnectionStatus::Connected, known_ips: ips, ..v },
            ),
            None => TableView {
                keys: self.keys.push(peer),
                stats: self.stats.push(PeerStatsView::fresh(params.topics.len() as nat, ips)),
            },
        }
    }

    /// What the addresses `ips[..n]` take from the score, summed in order; the sum
    /// saturates at the ends of `i128`.
    pub open spec fn colocation_total(self, params: PeerScoreParams, ips: Seq<IpAddr>, n: nat)
        -> int
        decreases n,
    {
        if n == 0 {
            0
        } else {
            clamp_i128(
                self.colocation_total(params, ips, (n - 1) as nat) + colocation_term(
                    params,
                    ips[n - 1],
                    count_at(self.stats, ips[n - 1], self.stats.len()),
                ),
            ) as int
        }
    }

    /// The score of a peer with stats `v` in this table.
    pub open spec fn score_of(self, params: PeerScoreParams, v: PeerStatsView) -> int {
        clamp_i128(
            clamp_i128(
                v.capped_total(params) + self.colocation_total(
                    params,
                    v.known_ips,
                    v.known_ips.len(),
                ),
            ) + v.behaviour_term(params),
        ) as int
    }

    /// The score of `peer`: zero for a peer that is not known.
    pub open spec fn score(self, params: PeerScoreParams, peer: Seq<char>) -> int {
        match self.get(peer) {
            Some(v) => self.score_of(params, v),
            None => 0,
        }
    }

    /// `peer` disconnects at `now`: with a positive score it is forgotten at once,
    /// else its stats are kept until they expire.
    pub open spec fn after_remove(self, params: PeerScoreParams, peer: Seq<char>, now: u64)
        -> TableView {
        match self.get(peer) {
            Some(v) => if self.score_of(params, v) > 0 {
                self.without(peer)
            } else {
                self.set(peer, v.retired(params, now))
            },
            None => self,
        }
    }

    /// The first `n` peers after a refresh at `now`: expired peers are gone, the
    /// others refreshed.
    pub open spec fn after_refresh(self, params: PeerScoreParams, now: u64, n: nat) -> TableView
        decreases n,
    {
        if n == 0 {
            TableView { keys: Seq::empty(), stats: Seq::empty() }
        } else {
            let t = self.after_refresh(params, now, (n - 1) as nat);
            if expired(self.stats[n - 1], now) {
                t
            } else {
                TableView {
                    keys: t.keys.push(self.keys[n - 1]),
                    stats: t.stats.push(refreshed(self.stats[n - 1], params, now)),
                }
            }
        }
    }
}

/// The views of a sequence of stats.
pub open spec fn stats_views(stats: Seq<PeerStats>) -> Seq<PeerStatsView> {
    Seq::new(stats.len(), |i: int| stats[i]@)
}

impl View for PeerTable {
    type V = TableView;

    open spec fn view(&self) -> TableView {
        TableView { keys: peer_keys(self.peers@), stats: stats_views(self.stats@) }
    }
}

impl PeerTable {
    /// The parameters are valid and the table is well formed for them.
    pub open spec fn wf(&self) -> bool {
        &&& self.params.valid()
        &&& self@.wf(self.params)
    }

    /// An empty table, if the parameters are valid.
    pub fn new(params: PeerScoreParams) -> (r: Result<PeerTable, ParamsError>)
        ensures
            match r {
                Ok(t) => params.valid() && t.wf() && t.params == params && t@.keys.len() == 0,
                Err(e) => params.defect() == Some(e),
            },
    {
        match params.validate() {
            Ok(_) => Ok(PeerTable { params, peers: Vec::new(), stats: Vec::new() }),
            Err(e) => Err(e),
        }
    }

    /// Whether the table is well formed: for a table that verified code built this
    /// is known; a caller that is not verified can test it here.
    pub fn is_well_formed(&self) -> (r: bool)
        ensures
            r == self.wf(),
    {
        if self.params.validate().is_err() || self.peers.len() != self.stats.len() {
            return false;
        }
        let ghost keys = self@.keys;
        let mut i: usize = 0;
        while i < self.peers.len()
            invariant
                i <= self.peers.len(),
                keys == self@.keys,
                forall|a: int, b: int| 0 <= a < i && 0 <= b < i && keys[a] == keys[b] ==> a == b,
            decreases self.peers.len() - i,
        {
            let mut k: usize = 0;
            while k < i
                invariant
                    k <= i < self.peers.len(),
                    keys == self@.keys,
                    forall|b: int| 0 <= b < k ==> keys[b] != keys[i as int],
                decreases i - k,
            {
                if self.peers[k].same(&self.peers[i]) {
                    assert(keys[k as int] == keys[i as int]);
                    return false;
                }
                k += 1;
            }
            i += 1;
        }
        assert(distinct(keys));
        let mut j: usize = 0;
        while j < self.stats.len()
            invariant
                j <= self.stats.len(),
                self.params.valid(),
                forall|m: int| 0 <= m < j ==> (#[trigger] self@.stats[m]).wf(self.params),
            decreases self.stats.len() - j,
        {
            if !self.stats[j].is_well_formed(&self.params) {
                assert(!self@.stats[j as int].wf(self.params));
                return false;
            }
            j += 1;
        }
        true
    }

    /// The position of `peer` in the table.
    pub fn find(&self, peer: &PeerId) -> (r: Option<usize>)
        requires
            self.wf(),
        ensures
            match r {
                Some(i) => i < self.stats.len() && position_of(self@.keys, peer@) == Some(i as int)
                    && self@.get(peer@) == Some(self.stats[i as int]@),
                None => position_of(self@.keys, peer@).is_none() && self@.get(peer@).is_none(),
            },
    {
        find_peer(&self.peers, peer)
    }

    /// The stats of `peer`, if it is known.
    pub fn get(&self, peer: &PeerId) -> (r: Option<&PeerStats>)
        requires
            self.wf(),
        ensures
            match r {
                Some(s) => self@.get(peer@) == Some(s@) && s@.wf(self.params),
                None => self@.get(peer@).is_none(),
            },
    {
        match self.find(peer) {
            Some(i) => {
                assert(self@.stats[i as int].wf(self.params));
                Some(&self.stats[i])
            },
            None => None,
        }
    }

    /// `peer` reports a relayed message on `topics`.
    pub fn mark(&mut self, peer: &PeerId, topics: &Vec<TopicHash>, kind: Delivery)
        requires
            old(self).wf(),
        ensures
            final(self).wf(),
            final(self).params == old(self).params,
            final(self)@ == old(self)@.marked(old(self).params, peer@, topic_keys(topics@), kind),
    {
        match self.find(peer) {
            Some(i) => {
                self.stats[i].mark(&self.params, topics, kind);
                assert(self@.stats =~= old(self)@.stats.update(i as int, self.stats[i as int]@));
            },
            None => {},
        }
    }

    /// Each of `peers` but `except` reports a relayed message on `topics`.
    pub fn mark_each(
        &mut self,
        peers: &Vec<PeerId>,
        except: Option<&PeerId>,
        topics: &Vec<TopicHash>,
        kind: Delivery,
    )
        requires
            old(self).wf(),
        ensures
            final(self).wf(),
            final(self).params == old(self).params,
            final(self)@ == old(self)@.marked_each(
                old(self).params,
                peer_keys(peers@),
                match except {
                    Some(p) => Some(p@),
                    None => None,
                },
                topic_keys(topics@),
                kind,
            ),
    {
        let ghost keys = peer_keys(peers@);
        let ghost skip: Option<Seq<char>> = match except {
            Some(p) => Some(p@),
            None => None,
        };
        let mut k: usize = 0;
        assert(keys.take(0) =~= Seq::<Seq<char>>::empty());
        while k < peers.len()
            invariant
                k <= peers.len(),
                keys == peer_keys(peers@),
                skip == match except {
                    Some(p) => Some(p@),
                    None => None,
                },
                self.wf(),
                self.params == old(self).params,
                self@ == old(self)@.marked_each(
                    self.params,
                    keys.take(k as int),
                    skip,
                    topic_keys(topics@),
                    kind,
                ),
            decreases peers.len() - k,
        {
            let excluded = match except {
                Some(p) => peers[k].same(p),
                None => false,
            };
            if !excluded {
                self.mark(&peers[k], topics, kind);
            }
            proof {
                assert(keys.take(k + 1).drop_last() =~= keys.take(k as int));
                assert(keys.take(k + 1).last() == peers[k as int]@);
            }
            k += 1;
        }
        assert(keys.take(peers.len() as int) =~= keys);
    }

    /// `peer` is grafted to `topic` at `now`.
    pub fn graft(&mut self, peer: &PeerId, topic: &TopicHash, now: u64)
        requires
            old(self).wf(),
        ensures
            final(self).wf(),
            final(self).params == old(self).params,
            final(self)@ == match old(self)@.get(peer@) {
                Some(v) => old(self)@.set(peer@, v.grafted(old(self).params, topic@, now)),
                None => old(self)@,
            },
    {
        match self.find(peer) {
            Some(i) => {
                self.stats[i].graft(&self.params, topic, now);
                assert(self@.stats =~= old(self)@.stats.update(i as int, self.stats[i as int]@));
            },
            None => {},
        }
    }

    /// `peer` is pruned from `topic`.
    pub fn prune(&mut self, peer: &PeerId, topic: &TopicHash)
        requires
            old(self).wf(),
        ensures
            final(self).wf(),
            final(self).params == old(self).params,
            final(self)@ == match old(self)@.get(peer@) {
                Some(v) => old(self)@.set(peer@, v.pruned(old(self).params, topic@)),
                None => old(self)@,
            },
    {
        match self.find(peer) {
            Some(i) => {
                self.stats[i].prune(&self.params, topic);
                assert(self@.stats =~= old(self)@.stats.update(i as int, self.stats[i as int]@));
            },
            None => {},
        }
    }

    /// Adds `count` to the behaviour penalty of `peer`.
    pub fn add_penalty(&mut self, peer: &PeerId, count: usize)
        requires
            old(self).wf(),
        ensures
            final(self).wf(),
            final(self).params == old(self).params,
            final(self)@ == match old(self)@.get(peer@) {
                Some(v) => old(self)@.set(peer@, v.penalised(count)),
                None => old(self)@,
            },
    {
        match self.find(peer) {
            Some(i) => {
                self.stats[i].penalise(count);
                assert(self@.stats =~= old(self)@.stats.update(i as int, self.stats[i as int]@));
            },
            None => {},
        }
    }

    /// `peer` connects from `known_ips`.
    pub fn add_peer(&mut self, peer: PeerId, known_ips: Vec<IpAddr>)
        requires
            old(self).wf(),
        ensures
            final(self).wf(),
            final(self).params == old(self).params,
            final(self)@ == old(self)@.with_peer(old(self).params, peer@, known_ips@),
    {
        match self.find(&peer) {
            Some(i) => {
                self.stats[i].status = ConnectionStatus::Connected;
                self.stats[i].known_ips = known_ips;
                assert(self@.stats =~= old(self)@.stats.update(i as int, self.stats[i as int]@));
            },
            None => {
                proof {
                    lemma_position_of(self@.keys, peer@);
                }
                let fresh = PeerStats::new(self.params.topics.len(), known_ips);
                self.peers.push(peer);
                self.stats.push(fresh);
                assert(self@.keys =~= old(self)@.keys.push(peer@));
                assert(self@.stats =~= old(self)@.stats.push(fresh@));
            },
        }
    }

    /// How many peers are known at `ip`.
    pub fn peers_at(&self, ip: IpAddr) -> (r: usize)
        ensures
            r == count_at(self@.stats, ip, self@.stats.len()),
    {
        let mut n: usize = 0;
        let mut j: usize = 0;
        while j < self.stats.len()
            invariant
                j <= self.stats.len(),
                n == count_at(self@.stats, ip, j as nat),
                n <= j,
            decreases self.stats.len() - j,
        {
            if contains_ip(&self.stats[j].known_ips, ip) {
                n += 1;
            }
            j += 1;
        }
        n
    }

    /// What `count` peers at `ip` take from the score of each.
    pub fn colocation(&self, ip: IpAddr, count: usize) -> (r: i128)
        ensures
            r == colocation_term(self.params, ip, count as nat),
    {
        let n = units(count);
        if contains_ip(&self.params.ip_colocation_factor_whitelist, ip) || n
            <= self.params.ip_colocation_factor_threshold {
            0
        } else {
            let surplus: u64 = n - self.params.ip_colocation_factor_threshold;
            weighted(scaled_mul(surplus, surplus), self.params.ip_colocation_factor_weight)
        }
    }

    /// The score of the peer at position `i`.
    pub fn score_at(&self, i: usize) -> (r: i128)
        requires
            self.wf(),
            i < self.stats.len(),
        ensures
            r == self@.score_of(self.params, self.stats[i as int]@),
    {
        assert(self@.stats[i as int].wf(self.params));
        let mut total: i128 = self.stats[i].capped_total(&self.params);
        let mut colocated: i128 = 0;
        let mut k: usize = 0;
        while k < self.stats[i as usize].known_ips.len()
            invariant
                i < self.stats.len(),
                k <= self.stats[i as int].known_ips.len(),
                colocated == self@.colocation_total(
                    self.params,
                    self.stats[i as int]@.known_ips,
                    k as nat,
                ),
            decreases self.stats[i as int].known_ips.len() - k,
        {
            let ip = self.stats[i].known_ips[k];
            let term = self.colocation(ip, self.peers_at(ip));
            colocated = sat_add_i128(colocated, term);
            k += 1;
        }
        total = sat_add_i128(total, colocated);
        sat_add_i128(total, self.stats[i].behaviour_term(&self.params))
    }

    /// The score of `peer`: zero for a peer that is not known.
    pub fn score(&self, peer: &PeerId) -> (r: i128)
        requires
            self.wf(),
        ensures
            r == self@.score(self.params, peer@),
    {
        match self.find(peer) {
            Some(i) => self.score_at(i),
            None => 0,
        }
    }

    /// `peer` disconnects at `now`.
    pub fn remove_peer(&mut self, peer: &PeerId, now: u64)
        requires
            old(self).wf(),
        ensures
            final(self).wf(),
            final(self).params == old(self).params,
            final(self)@ == old(self)@.after_remove(old(self).params, peer@, now),
    {
        match self.find(peer) {
            Some(i) => {
                if self.score_at(i) > 0 {
                    let _ = self.peers.remove(i);
                    let _ = self.stats.remove(i);
                    assert(self@.keys =~= old(self)@.keys.remove(i as int));
                    assert(self@.stats =~= old(self)@.stats.remove(i as int));
                } else {
                    self.stats[i].retire(&self.params, now);
                    assert(self@.stats =~= old(self)@.stats.update(
                        i as int,
                        self.stats[i as int]@,
                    ));
                }
            },
            None => {},
        }
    }

    /// One refresh at `now`: expired peers are forgotten, connected peers decay.
    pub fn refresh(&mut self, now: u64)
        requires
            old(self).wf(),
        ensures
            final(self).wf(),
            final(self).params == old(self).params,
            final(self)@ == old(self)@.after_refresh(
                old(self).params,
                now,
                old(self)@.keys.len(),
            ),
    {
        let ghost orig = self@;
        let ghost mut g: nat = 0;
        let mut k: usize = 0;
        while k < self.peers.len()
            invariant
                self.wf(),
                self.params == old(self).params,
                orig == old(self)@,
                g <= orig.keys.len(),
                orig.keys.len() == orig.stats.len(),
                k <= self.peers.len(),
                self.peers.len() - k == orig.keys.len() - g,
                orig.after_refresh(self.params, now, g).keys.len() == k,
                orig.after_refresh(self.params, now, g).stats.len() == k,
                self@.keys =~= orig.after_refresh(self.params, now, g).keys + orig.keys.skip(
                    g as int,
                ),
                self@.stats =~= orig.after_refresh(self.params, now, g).stats + orig.stats.skip(
                    g as int,
                ),
            decreases self.peers.len() - k,
        {
            let ghost before = self@;
            let ghost done = orig.after_refresh(self.params, now, g);
            assert(before.stats[k as int] == orig.stats[g as int]);
            assert(before.keys[k as int] == orig.keys[g as int]);
            let dead = match self.stats[k].status {
                ConnectionStatus::Connected => false,
                ConnectionStatus::Disconnected { expire } => now > expire,
            };
            if dead {
                let _ = self.peers.remove(k);
                let _ = self.stats.remove(k);
                assert(self@.keys =~= before.keys.remove(k as int));
                assert(self@.stats =~= before.stats.remove(k as int));
                proof {
                    g = g + 1;
                }
            } else {
                match self.stats[k].status {
                    ConnectionStatus::Connected => {
                        self.stats[k].decay(&self.params, now);
                    },
                    ConnectionStatus::Disconnected { expire: _ } => {},
                }
                assert(self@.stats =~= before.stats.update(k as int, self.stats[k as int]@));
                assert(self@.keys =~= before.keys);
                k += 1;
                proof {
                    g = g + 1;
                }
            }
        }
    }

    /// The known addresses of `peer`, open to change: whatever the caller leaves there
    /// are the addresses of the peer from then on.
    pub fn get_ips_mut(&mut self, peer: &PeerId) -> (r: Option<&mut Vec<IpAddr>>)
        requires
            old(self).wf(),
        ensures
            match r {
                Some(ips) => old(self)@.get(peer@).is_some() && ips@ == old(self)@.get(
                    peer@,
                ).unwrap().known_ips && final(self)@.keys == old(self)@.keys
                    && final(self)@.stats =~= old(self)@.set(
                    peer@,
                    PeerStatsView { known_ips: final(ips)@, ..old(self)@.get(peer@).unwrap() },
                ).stats && final(self).params == old(self).params && old(self)@.set(
                    peer@,
                    PeerStatsView { known_ips: final(ips)@, ..old(self)@.get(peer@).unwrap() },
                ).wf(old(self).params),
                None => old(self)@.get(peer@).is_none() && *final(self) == *old(self),
            },
    {
        match self.find(peer) {
            Some(i) => Some(&mut self.stats[i].known_ips),
            None => None,
        }
    }

    /// Takes the addresses `gone` from the known addresses of `peer`.
    pub fn remove_ips(&mut self, peer: &PeerId, gone: &Vec<IpAddr>)
        requires
            old(self).wf(),
        ensures
            final(self).wf(),
            final(self).params == old(self).params,
            final(self)@ == match old(self)@.get(peer@) {
                Some(v) => old(self)@.set(
                    peer@,
                    PeerStatsView { known_ips: remaining_ips(v.known_ips, gone@), ..v },
                ),
                None => old(self)@,
            },
    {
        match self.find(peer) {
            Some(i) => {
                let mut kept: Vec<IpAddr> = Vec::new();
                let mut k: usize = 0;
                let ghost known = self.stats[i as int].known_ips@;
                assert(known.take(0) =~= Seq::<IpAddr>::empty());
                while k < self.stats[i].known_ips.len()
                    invariant
                        i < self.stats.len(),
                        known == self.stats[i as int].known_ips@,
                        k <= known.len(),
                        kept@ == remaining_ips(known.take(k as int), gone@),
                    decreases known.len() - k,
                {
                    let ip = self.stats[i].known_ips[k];
                    proof {
                        assert(known.take(k + 1).drop_last() =~= known.take(k as int));
                        assert(known.take(k + 1).last() == ip);
                    }
                    if !contains_ip(gone, ip) {
                        kept.push(ip);
                    }
                    k += 1;
                }
                assert(known.take(known.len() as int) =~= known);
                self.stats[i].known_ips = kept;
                assert(self@.stats =~= old(self)@.stats.update(i as int, self.stats[i as int]@));
            },
            None => {},
        }
    }

    /// The peers observed at `ip`, each once, in the order of the table.
    pub fn peers_of(&self, ip: IpAddr) -> (r: Vec<PeerId>)
        requires
            self.wf(),
        ensures
            distinct(peer_keys(r@)),
            forall|p: Seq<char>| peer_keys(r@).contains(p) <==> peers_at(self@, ip).contains(p),
    {
        let mut out: Vec<PeerId> = Vec::new();
        let mut j: usize = 0;
        while j < self.peers.len()
            invariant
                self.wf(),
                j <= self.peers.len(),
                forall|a: int|
                    0 <= a < peer_keys(out@).len() ==> listed_before(
                        self@,
                        ip,
                        j as int,
                        #[trigger] peer_keys(out@)[a],
                    ),
                forall|m: int|
                    0 <= m < j && self@.stats[m].known_ips.contains(ip) ==> peer_keys(
                        out@,
                    ).contains(#[trigger] self@.keys[m]),
                distinct(peer_keys(out@)),
            decreases self.peers.len() - j,
        {
            let ghost before = peer_keys(out@);
            if contains_ip(&self.stats[j].known_ips, ip) {
                out.push(self.peers[j].clone());
                assert(peer_keys(out@) =~= before.push(self@.keys[j as int]));
            }
            proof {
                let after = peer_keys(out@);
                assert forall|a: int| 0 <= a < after.len() implies listed_before(
                    self@,
                    ip,
                    j + 1,
                    #[trigger] after[a],
                ) by {
                    if a < before.len() {
                        assert(listed_before(self@, ip, j as int, before[a]));
                        let m = choose|m: int|
                            0 <= m < j && self@.keys[m] == before[a]
                                && self@.stats[m].known_ips.contains(ip);
                        assert(0 <= m < j + 1 && self@.keys[m] == after[a]
                            && self@.stats[m].known_ips.contains(ip));
                    } else {
                        assert(0 <= j < j + 1 && self@.keys[j as int] == after[a]
                            && self@.stats[j as int].known_ips.contains(ip));
                    }
                }
                assert forall|m: int|
                    0 <= m < j + 1 && self@.stats[m].known_ips.contains(
                        ip,
                    ) implies after.contains(#[trigger] self@.keys[m]) by {
                    if m < j {
                        let a = choose|a: int| 0 <= a < before.len() && before[a] == self@.keys[m];
                        assert(after[a] == self@.keys[m]);
                    } else {
                        assert(after[before.len() as int] == self@.keys[m]);
                    }
                }
                assert forall|a: int, b: int|
                    0 <= a < after.len() && 0 <= b < after.len() && after[a]
                        == after[b] implies a == b by {
                    if a < before.len() && b == before.len() {
                        assert(listed_before(self@, ip, j as int, before[a]));
                        let m = choose|m: int|
                            0 <= m < j && self@.keys[m] == before[a]
                                && self@.stats[m].known_ips.contains(ip);
                        assert(self@.keys[m] == self@.keys[j as int]);
                    }
                    if b < before.len() && a == before.len() {
                        assert(listed_before(self@, ip, j as int, before[b]));
                        let m = choose|m: int|
                            0 <= m < j && self@.keys[m] == before[b]
                                && self@.stats[m].known_ips.contains(ip);
                        assert(self@.keys[m] == self@.keys[j as int]);
                    }
                }
            }
            j += 1;
        }
        proof {
            let keys = peer_keys(out@);
            assert forall|p: Seq<char>| keys.contains(p) <==> peers_at(self@, ip).contains(
                p,
            ) by {
                lemma_position_of(self@.keys, p);
                if keys.contains(p) {
                    let a = choose|a: int| 0 <= a < keys.len() && keys[a] == p;
                    assert(listed_before(self@, ip, j as int, keys[a]));
                    let m = choose|m: int|
                        0 <= m < j && self@.keys[m] == keys[a]
                            && self@.stats[m].known_ips.contains(ip);
                    let i = position_of(self@.keys, p).unwrap();
                    assert(self@.keys[i] == self@.keys[m]);
                }
                if peers_at(self@, ip).contains(p) {
                    let i = position_of(self@.keys, p).unwrap();
                    assert(keys.contains(self@.keys[i]));
                }
            }
        }
        out
    }
}

} // verus!
