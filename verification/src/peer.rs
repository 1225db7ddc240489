//! The statistics kept of one peer.

use vstd::prelude::*;
use crate::fixed::{
    SCALE, clamp_i128, clamp_u64, decay, sat_add, sat_add_i128, scaled_mul, spec_decay,
    spec_sat_add, spec_scaled_mul, spec_weighted, weighted,
};
use crate::ident::{IpAddr, TopicHash, topic_keys};
use crate::params::PeerScoreParams;
use crate::stats::{ConnectionStatus, Delivery, TopicStats};

verus! {

/// Statistics of one peer. `topics` runs in parallel to the scored topics of the
/// parameters: `topics[i]` holds the stats on the `i`-th scored topic once an event
/// has created them.
#[derive(Debug)]
pub struct PeerStats {
    pub status: ConnectionStatus,
    pub topics: Vec<Option<TopicStats>>,
    pub known_ips: Vec<IpAddr>,
    pub behaviour_penalty: u64,
}

/// The statistics of one peer as a mathematical value.
pub struct PeerStatsView {
    pub status: ConnectionStatus,
    pub topics: Seq<Option<TopicStats>>,
    pub known_ips: Seq<IpAddr>,
    pub behaviour_penalty: u64,
}

/// `f` applied to each of the stats that exist.
pub open spec fn map_topics(
    topics: Seq<Option<TopicStats>>,
    f: spec_fn(int, TopicStats) -> TopicStats,
) -> Seq<Option<TopicStats>> {
    Seq::new(
        topics.len(),
        |i: int|
            match topics[i] {
                Some(ts) => Some(f(i, ts)),
                None => None,
            },
    )
}

/// `count` whole units as a fixed-point number, saturated.
pub open spec fn spec_units(count: usize) -> u64 {
    clamp_u64(count as int * SCALE as int)
}

pub fn units(count: usize) -> (r: u64)
    ensures
        r == spec_units(count),
{
    let c: u64 = count as u64;
    if c > u64::MAX / SCALE {
        assert(c as int * SCALE as int > u64::MAX as int) by (nonlinear_arith)
            requires
                c as int >= 18446744073710,
                SCALE as int == 1_000_000,
        ;
        u64::MAX
    } else {
        assert(c as int * SCALE as int <= u64::MAX as int) by (nonlinear_arith)
            requires
                0 <= c as int <= 18446744073709,
                SCALE as int == 1_000_000,
        ;
        c * SCALE
    }
}

impl PeerStatsView {
    /// There is one slot for each scored topic, and the delivery counters of each
    /// topic are within the caps of that topic.
    pub open spec fn wf(self, params: PeerScoreParams) -> bool {
        &&& self.topics.len() == params.topics.len()
        &&& forall|i: int|
            0 <= i < self.topics.len() ==> match #[trigger] self.topics[i] {
                Some(ts) => ts.capped(params.topic_params[i]),
                None => true,
            }
    }

    /// The stats of a peer that has just connected for the first time.
    pub open spec fn fresh(slots: nat, known_ips: Seq<IpAddr>) -> PeerStatsView {
        PeerStatsView {
            status: ConnectionStatus::Connected,
            topics: Seq::new(slots, |i: int| None),
            known_ips,
            behaviour_penalty: 0,
        }
    }

    /// The stats on the `i`-th scored topic, or those of a peer without history.
    pub open spec fn stats_or_default(self, i: int) -> TopicStats {
        match self.topics[i] {
            Some(ts) => ts,
            None => TopicStats::spec_default(),
        }
    }

    /// The stats on `topic`, if the topic is scored and an event has created them.
    pub open spec fn topic_stats(self, params: PeerScoreParams, topic: Seq<char>) -> Option<
        TopicStats,
    > {
        match params.topic_index(topic) {
            Some(i) => self.topics[i],
            None => None,
        }
    }

    pub open spec fn with_topic(self, i: int, ts: TopicStats) -> PeerStatsView {
        PeerStatsView { topics: self.topics.update(i, Some(ts)), ..self }
    }

    /// One report on one topic: a topic that is not scored changes nothing.
    pub open spec fn marked_one(self, params: PeerScoreParams, topic: Seq<char>, kind: Delivery)
        -> PeerStatsView {
        match params.topic_index(topic) {
            Some(i) => self.with_topic(
                i,
                self.stats_or_default(i).spec_marked(params.topic_params[i], kind),
            ),
            None => self,
        }
    }

    /// One report on each topic of a message, in the message's order.
    pub open spec fn marked_all(
        self,
        params: PeerScoreParams,
        topics: Seq<Seq<char>>,
        kind: Delivery,
    ) -> PeerStatsView
        decreases topics.len(),
    {
        if topics.len() == 0 {
            self
        } else {
            self.marked_all(params, topics.drop_last(), kind).marked_one(
                params,
                topics.last(),
                kind,
            )
        }
    }

    pub open spec fn grafted(self, params: PeerScoreParams, topic: Seq<char>, now: u64)
        -> PeerStatsView {
        match params.topic_index(topic) {
            Some(i) => self.with_topic(i, self.stats_or_default(i).spec_grafted(now)),
            None => self,
        }
    }

    pub open spec fn pruned(self, params: PeerScoreParams, topic: Seq<char>) -> PeerStatsView {
        match params.topic_index(topic) {
            Some(i) => self.with_topic(
                i,
                self.stats_or_default(i).spec_pruned(params.topic_params[i]),
            ),
            None => self,
        }
    }

    /// What is kept of a peer that disconnects at `now`.
    pub open spec fn retired(self, params: PeerScoreParams, now: u64) -> PeerStatsView {
        PeerStatsView {
            status: ConnectionStatus::Disconnected {
                expire: spec_sat_add(now, params.retain_score),
            },
            topics: map_topics(
                self.topics,
                |i: int, ts: TopicStats| ts.spec_retired(params.topic_params[i]),
            ),
            ..self
        }
    }

    /// The stats of a connected peer after one refresh at `now`.
    pub open spec fn decayed(self, params: PeerScoreParams, now: u64) -> PeerStatsView {
        PeerStatsView {
            topics: map_topics(
                self.topics,
                |i: int, ts: TopicStats|
                    ts.spec_decayed(params.topic_params[i], params.decay_to_zero, now),
            ),
            behaviour_penalty: spec_decay(
                self.behaviour_penalty,
                params.behaviour_penalty_decay,
                params.decay_to_zero,
            ),
            ..self
        }
    }

    pub open spec fn penalised(self, count: usize) -> PeerStatsView {
        PeerStatsView {
            behaviour_penalty: spec_sat_add(self.behaviour_penalty, spec_units(count)),
            ..self
        }
    }

    /// The share of the `i`-th scored topic in the score.
    pub open spec fn contribution(self, params: PeerScoreParams, i: int) -> int {
        match self.topics[i] {
            Some(ts) => ts.spec_contribution(params.topic_params[i]),
            None => 0,
        }
    }

    /// The shares of the first `n` scored topics, summed in their order; the sum
    /// saturates at the ends of `i128`.
    pub open spec fn topics_total(self, params: PeerScoreParams, n: nat) -> int
        decreases n,
    {
        if n == 0 {
            0
        } else {
            clamp_i128(
                self.topics_total(params, (n - 1) as nat) + self.contribution(params, n - 1),
            ) as int
        }
    }

    /// The summed topic score, held at the cap where one is set.
    pub open spec fn capped_total(self, params: PeerScoreParams) -> int {
        let total = self.topics_total(params, self.topics.len());
        if params.topic_score_cap > 0 && total > params.topic_score_cap {
            params.topic_score_cap as int
        } else {
            total
        }
    }

    /// What the squared behaviour penalty takes from the score.
    pub open spec fn behaviour_term(self, params: PeerScoreParams) -> int {
        spec_weighted(
            spec_scaled_mul(self.behaviour_penalty, self.behaviour_penalty),
            params.behaviour_penalty_weight,
        )
    }
}

impl View for PeerStats {
    type V = PeerStatsView;

    open spec fn view(&self) -> PeerStatsView {
        PeerStatsView {
            status: self.status,
            topics: self.topics@,
            known_ips: self.known_ips@,
            behaviour_penalty: self.behaviour_penalty,
        }
    }
}

impl PeerStats {
    /// The stats of a peer that connects for the first time, with one empty slot for
    /// each of `slots` scored topics.
    pub fn new(slots: usize, known_ips: Vec<IpAddr>) -> (r: PeerStats)
        ensures
            r@ == PeerStatsView::fresh(slots as nat, known_ips@),
    {
        let mut topics: Vec<Option<TopicStats>> = Vec::new();
        let mut i: usize = 0;
        while i < slots
            invariant
                i <= slots,
                topics.len() == i,
                forall|j: int| 0 <= j < i ==> topics@[j].is_none(),
            decreases slots - i,
        {
            topics.push(None);
            i += 1;
        }
        let r = PeerStats {
            status: ConnectionStatus::Connected,
            topics,
            known_ips,
            behaviour_penalty: 0,
        };
        assert(r@.topics =~= PeerStatsView::fresh(slots as nat, r.known_ips@).topics);
        r
    }

    /// The slot of `topic` if the parameters score it, with default stats put there
    /// unless stats exist already; `None`, and no change, if they do not score it.
    pub fn stats_or_default_mut(&mut self, topic: &TopicHash, params: &PeerScoreParams) -> (r:
        Option<usize>)
        requires
            old(self)@.wf(*params),
        ensures
            final(self)@.wf(*params),
            match r {
                Some(i) => params.topic_index(topic@) == Some(i as int) && i < params.topics.len()
                    && final(self)@ == old(self)@.with_topic(
                    i as int,
                    old(self)@.stats_or_default(i as int),
                ),
                None => params.topic_index(topic@).is_none() && final(self)@ == old(self)@,
            },
    {
        match params.find_topic(topic) {
            Some(i) => {
                if self.topics[i].is_none() {
                    self.topics.set(i, Some(TopicStats::default()));
                }
                assert(self@.topics =~= old(self)@.with_topic(
                    i as int,
                    old(self)@.stats_or_default(i as int),
                ).topics);
                Some(i)
            },
            None => None,
        }
    }

    /// Whether these stats are well formed for `params`.
    pub fn is_well_formed(&self, params: &PeerScoreParams) -> (r: bool)
        requires
            params.topics.len() == params.topic_params.len(),
        ensures
            r == self@.wf(*params),
    {
        if self.topics.len() != params.topics.len() {
            return false;
        }
        let mut i: usize = 0;
        while i < self.topics.len()
            invariant
                i <= self.topics.len(),
                self.topics.len() == params.topics.len(),
                params.topics.len() == params.topic_params.len(),
                forall|j: int|
                    0 <= j < i ==> match #[trigger] self@.topics[j] {
                        Some(ts) => ts.capped(params.topic_params[j]),
                        None => true,
                    },
            decreases self.topics.len() - i,
        {
            match self.topics[i] {
                Some(ts) => {
                    let tp = &params.topic_params[i];
                    if ts.first_message_deliveries > tp.first_message_deliveries_cap
                        || ts.mesh_message_deliveries > tp.mesh_message_deliveries_cap {
                        assert(!(match self@.topics[i as int] {
                            Some(ts) => ts.capped(params.topic_params[i as int]),
                            None => true,
                        }));
                        return false;
                    }
                },
                None => {},
            }
            i += 1;
        }
        true
    }

    /// The stats on `topic`, if the topic is scored and an event has created them.
    pub fn stats_for(&self, params: &PeerScoreParams, topic: &TopicHash) -> (r: Option<TopicStats>)
        requires
            self@.wf(*params),
        ensures
            r == self@.topic_stats(*params, topic@),
    {
        match params.find_topic(topic) {
            Some(i) => self.topics[i],
            None => None,
        }
    }

    /// The stats in slot `i`, or default stats where the slot is empty.
    pub fn slot(&self, i: usize) -> (r: TopicStats)
        requires
            i < self.topics.len(),
        ensures
            r == self@.stats_or_default(i as int),
    {
        match self.topics[i] {
            Some(ts) => ts,
            None => TopicStats::default(),
        }
    }

    /// Reports one relayed message on each of its topics.
    pub fn mark(&mut self, params: &PeerScoreParams, topics: &Vec<TopicHash>, kind: Delivery)
        requires
            old(self)@.wf(*params),
            params.valid(),
        ensures
            final(self)@ == old(self)@.marked_all(*params, topic_keys(topics@), kind),
            final(self)@.wf(*params),
    {
        let ghost keys = topic_keys(topics@);
        let mut k: usize = 0;
        assert(keys.take(0) =~= Seq::<Seq<char>>::empty());
        while k < topics.len()
            invariant
                k <= topics.len(),
                keys == topic_keys(topics@),
                params.valid(),
                self@.wf(*params),
                self@ == old(self)@.marked_all(*params, keys.take(k as int), kind),
            decreases topics.len() - k,
        {
            let ghost before = self@;
            match params.find_topic(&topics[k]) {
                Some(i) => {
                    let ts = self.slot(i).marked(&params.topic_params[i], kind);
                    self.topics.set(i, Some(ts));
                    assert(self@.topics =~= before.with_topic(i as int, ts).topics);
                },
                None => {},
            }
            proof {
                assert(keys.take(k + 1).drop_last() =~= keys.take(k as int));
                assert(keys.take(k + 1).last() == topics[k as int]@);
                assert(self@ == before.marked_one(*params, topics[k as int]@, kind));
            }
            k += 1;
        }
        assert(keys.take(topics.len() as int) =~= keys);
    }

    /// The peer is grafted to `topic` at `now`.
    pub fn graft(&mut self, params: &PeerScoreParams, topic: &TopicHash, now: u64)
        requires
            old(self)@.wf(*params),
        ensures
            final(self)@ == old(self)@.grafted(*params, topic@, now),
            final(self)@.wf(*params),
    {
        match params.find_topic(topic) {
            Some(i) => {
                let ts = self.slot(i).grafted(now);
                self.topics.set(i, Some(ts));
                assert(self@.topics =~= old(self)@.with_topic(i as int, ts).topics);
            },
            None => {},
        }
    }

    /// The peer is pruned from `topic`.
    pub fn prune(&mut self, params: &PeerScoreParams, topic: &TopicHash)
        requires
            old(self)@.wf(*params),
            params.valid(),
        ensures
            final(self)@ == old(self)@.pruned(*params, topic@),
            final(self)@.wf(*params),
    {
        match params.find_topic(topic) {
            Some(i) => {
                let ts = self.slot(i).pruned(&params.topic_params[i]);
                self.topics.set(i, Some(ts));
                assert(self@.topics =~= old(self)@.with_topic(i as int, ts).topics);
            },
            None => {},
        }
    }

    /// The peer disconnects at `now` and its stats are kept.
    pub fn retire(&mut self, params: &PeerScoreParams, now: u64)
        requires
            old(self)@.wf(*params),
            params.valid(),
        ensures
            final(self)@ == old(self)@.retired(*params, now),
            final(self)@.wf(*params),
    {
        let mut i: usize = 0;
        while i < self.topics.len()
            invariant
                i <= self.topics.len(),
                params.valid(),
                self@.wf(*params),
                self.topics.len() == old(self).topics.len(),
                self.status == old(self).status,
                self.known_ips == old(self).known_ips,
                self.behaviour_penalty == old(self).behaviour_penalty,
                forall|j: int|
                    0 <= j < i ==> self.topics@[j] == old(self)@.retired(*params, now).topics[j],
                forall|j: int| i <= j < self.topics.len() ==> self.topics@[j] == old(self).topics@[j],
            decreases self.topics.len() - i,
        {
            match self.topics[i] {
                Some(ts) => {
                    let r = ts.retired(&params.topic_params[i]);
                    self.topics.set(i, Some(r));
                },
                None => {},
            }
            i += 1;
        }
        self.status = ConnectionStatus::Disconnected { expire: sat_add(now, params.retain_score) };
        assert(self@.topics =~= old(self)@.retired(*params, now).topics);
    }

    /// One refresh of a connected peer at `now`.
    pub fn decay(&mut self, params: &PeerScoreParams, now: u64)
        requires
            old(self)@.wf(*params),
            params.valid(),
        ensures
            final(self)@ == old(self)@.decayed(*params, now),
            final(self)@.wf(*params),
    {
        let mut i: usize = 0;
        while i < self.topics.len()
            invariant
                i <= self.topics.len(),
                params.valid(),
                self@.wf(*params),
                self.topics.len() == old(self).topics.len(),
                self.status == old(self).status,
                self.known_ips == old(self).known_ips,
                self.behaviour_penalty == old(self).behaviour_penalty,
                forall|j: int|
                    0 <= j < i ==> self.topics@[j] == old(self)@.decayed(*params, now).topics[j],
                forall|j: int| i <= j < self.topics.len() ==> self.topics@[j] == old(self).topics@[j],
            decreases self.topics.len() - i,
        {
            match self.topics[i] {
                Some(ts) => {
                    assert(params.topic_params[i as int].valid());
                    assert(ts.capped(params.topic_params[i as int]));
                    let r = ts.decayed(&params.topic_params[i], params.decay_to_zero, now);
                    self.topics.set(i, Some(r));
                },
                None => {},
            }
            i += 1;
        }
        self.behaviour_penalty =
        decay(self.behaviour_penalty, params.behaviour_penalty_decay, params.decay_to_zero);
        assert(self@.topics =~= old(self)@.decayed(*params, now).topics);
    }

    /// Adds `count` to the behaviour penalty.
    pub fn penalise(&mut self, count: usize)
        ensures
            final(self)@ == old(self)@.penalised(count),
    {
        self.behaviour_penalty = sat_add(self.behaviour_penalty, units(count));
    }

    /// The summed and capped topic score.
    pub fn capped_total(&self, params: &PeerScoreParams) -> (r: i128)
        requires
            self@.wf(*params),
            params.valid(),
        ensures
            r == self@.capped_total(*params),
    {
        let mut total: i128 = 0;
        let mut i: usize = 0;
        while i < self.topics.len()
            invariant
                i <= self.topics.len(),
                params.valid(),
                self@.wf(*params),
                total == self@.topics_total(*params, i as nat),
            decreases self.topics.len() - i,
        {
            match self.topics[i] {
                Some(ts) => {
                    assert(params.topic_params[i as int].valid());
                    let c = ts.contribution(&params.topic_params[i]);
                    total = sat_add_i128(total, c);
                },
                None => {},
            }
            i += 1;
        }
        if params.topic_score_cap > 0 && total > params.topic_score_cap as i128 {
            params.topic_score_cap as i128
        } else {
            total
        }
    }

    /// What the squared behaviour penalty takes from the score.
    pub fn behaviour_term(&self, params: &PeerScoreParams) -> (r: i128)
        ensures
            r == self@.behaviour_term(*params),
    {
        weighted(
            scaled_mul(self.behaviour_penalty, self.behaviour_penalty),
            params.behaviour_penalty_weight,
        )
    }
}

} // verus!
