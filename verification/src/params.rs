//! Scoring parameters and their validation.

use vstd::prelude::*;
use crate::fixed::SCALE;
use crate::ident::{
    IpAddr, TopicHash, lemma_position_absent, lemma_position_found, position_of, topic_keys,
};

verus! {

/// Parameters of one scored topic. Weights, caps, thresholds and decay factors are
/// fixed-point numbers; quantum, window and activation are milliseconds.
#[derive(Clone, Copy, Debug)]
pub struct TopicScoreParams {
    pub topic_weight: u64,
    pub time_in_mesh_weight: i64,
    pub time_in_mesh_quantum: u64,
    pub time_in_mesh_cap: u64,
    pub first_message_deliveries_weight: i64,
    pub first_message_deliveries_decay: u64,
    pub first_message_deliveries_cap: u64,
    pub mesh_message_deliveries_weight: i64,
    pub mesh_message_deliveries_decay: u64,
    pub mesh_message_deliveries_cap: u64,
    pub mesh_message_deliveries_threshold: u64,
    pub mesh_message_deliveries_window: u64,
    pub mesh_message_deliveries_activation: u64,
    pub mesh_failure_penalty_weight: i64,
    pub mesh_failure_penalty_decay: u64,
    pub invalid_message_deliveries_weight: i64,
    pub invalid_message_deliveries_decay: u64,
}

/// Why a set of parameters is refused.
#[derive(Clone, Copy, Debug, PartialEq, Eq, Structural)]
pub enum ParamsError {
    /// The time-in-mesh quantum is zero.
    ZeroQuantum,
    /// A weight that must detract is positive.
    PositivePenaltyWeight,
    /// A decay factor is not strictly between zero and one.
    DecayOutOfRange,
    /// The colocation threshold is zero.
    ZeroColocationThreshold,
    /// The floor below which counters snap to zero is zero.
    ZeroDecayFloor,
    /// The list of topics and the list of their parameters differ in length.
    TopicCountMismatch,
}

/// A decay factor strictly between zero and one.
pub open spec fn decay_in_range(d: u64) -> bool {
    0 < d < SCALE
}

pub fn check_decay(d: u64) -> (r: bool)
    ensures
        r == decay_in_range(d),
{
    0 < d && d < SCALE
}

impl TopicScoreParams {
    /// The first constraint that these parameters break, if any.
    pub open spec fn defect(&self) -> Option<ParamsError> {
        if self.time_in_mesh_quantum == 0 {
            Some(ParamsError::ZeroQuantum)
        } else if self.mesh_message_deliveries_weight > 0 || self.mesh_failure_penalty_weight > 0
            || self.invalid_message_deliveries_weight > 0 {
            Some(ParamsError::PositivePenaltyWeight)
        } else if !decay_in_range(self.first_message_deliveries_decay) || !decay_in_range(
            self.mesh_message_deliveries_decay,
        ) || !decay_in_range(self.mesh_failure_penalty_decay) || !decay_in_range(
            self.invalid_message_deliveries_decay,
        ) {
            Some(ParamsError::DecayOutOfRange)
        } else {
            None
        }
    }

    pub open spec fn valid(&self) -> bool {
        self.defect().is_none()
    }

    pub fn validate(&self) -> (r: Result<(), ParamsError>)
        ensures
            match r {
                Ok(_) => self.defect().is_none(),
                Err(e) => self.defect() == Some(e),
            },
    {
        if self.time_in_mesh_quantum == 0 {
            Err(ParamsError::ZeroQuantum)
        } else if self.mesh_message_deliveries_weight > 0 || self.mesh_failure_penalty_weight > 0
            || self.invalid_message_deliveries_weight > 0 {
            Err(ParamsError::PositivePenaltyWeight)
        } else if !check_decay(self.first_message_deliveries_decay) || !check_decay(
            self.mesh_message_deliveries_decay,
        ) || !check_decay(self.mesh_failure_penalty_decay) || !check_decay(
            self.invalid_message_deliveries_decay,
        ) {
            Err(ParamsError::DecayOutOfRange)
        } else {
            Ok(())
        }
    }
}

/// Parameters of the whole score. `topics` and `topic_params` run in parallel: the
/// parameters of `topics[i]` are `topic_params[i]`, and where a topic is listed twice
/// its first entry counts. `retain_score` is in milliseconds.
#[derive(Debug)]
pub struct PeerScoreParams {
    pub topics: Vec<TopicHash>,
    pub topic_params: Vec<TopicScoreParams>,
    pub topic_score_cap: u64,
    pub ip_colocation_factor_weight: i64,
    pub ip_colocation_factor_threshold: u64,
    pub ip_colocation_factor_whitelist: Vec<IpAddr>,
    pub behaviour_penalty_weight: i64,
    pub behaviour_penalty_decay: u64,
    pub decay_to_zero: u64,
    pub retain_score: u64,
}

impl PeerScoreParams {
    /// `i` is the least position of a topic whose parameters break a constraint.
    pub open spec fn first_bad_at(&self, i: int) -> bool {
        &&& 0 <= i < self.topic_params.len()
        &&& !self.topic_params[i].valid()
        &&& forall|j: int| 0 <= j < i ==> self.topic_params[j].valid()
    }

    /// The least position of a topic whose parameters break a constraint.
    pub open spec fn first_bad_topic(&self) -> Option<int> {
        if exists|i: int| self.first_bad_at(i) {
            Some(choose|i: int| self.first_bad_at(i))
        } else {
            None
        }
    }

    /// The first constraint that these parameters break, if any: the global ones are
    /// looked at first, then the topics in their order.
    pub open spec fn defect(&self) -> Option<ParamsError> {
        if self.ip_colocation_factor_weight > 0 || self.behaviour_penalty_weight > 0 {
            Some(ParamsError::PositivePenaltyWeight)
        } else if self.ip_colocation_factor_threshold == 0 {
            Some(ParamsError::ZeroColocationThreshold)
        } else if !decay_in_range(self.behaviour_penalty_decay) {
            Some(ParamsError::DecayOutOfRange)
        } else if self.decay_to_zero == 0 {
            Some(ParamsError::ZeroDecayFloor)
        } else if self.topics.len() != self.topic_params.len() {
            Some(ParamsError::TopicCountMismatch)
        } else {
            match self.first_bad_topic() {
                Some(i) => self.topic_params[i].defect(),
                None => None,
            }
        }
    }

    /// The parameters meet every constraint.
    pub open spec fn valid(&self) -> bool {
        &&& self.ip_colocation_factor_weight <= 0
        &&& self.behaviour_penalty_weight <= 0
        &&& self.ip_colocation_factor_threshold > 0
        &&& decay_in_range(self.behaviour_penalty_decay)
        &&& self.decay_to_zero > 0
        &&& self.topics.len() == self.topic_params.len()
        &&& forall|i: int| 0 <= i < self.topic_params.len() ==> self.topic_params[i].valid()
    }

    /// The position under which `topic` is scored.
    pub open spec fn topic_index(&self, topic: Seq<char>) -> Option<int> {
        position_of(topic_keys(self.topics@), topic)
    }

    pub fn validate(&self) -> (r: Result<(), ParamsError>)
        ensures
            r.is_ok() == self.valid(),
            match r {
                Ok(_) => self.defect().is_none(),
                Err(e) => self.defect() == Some(e),
            },
    {
        if self.ip_colocation_factor_weight > 0 || self.behaviour_penalty_weight > 0 {
            return Err(ParamsError::PositivePenaltyWeight);
        }
        if self.ip_colocation_factor_threshold == 0 {
            return Err(ParamsError::ZeroColocationThreshold);
        }
        if !check_decay(self.behaviour_penalty_decay) {
            return Err(ParamsError::DecayOutOfRange);
        }
        if self.decay_to_zero == 0 {
            return Err(ParamsError::ZeroDecayFloor);
        }
        if self.topics.len() != self.topic_params.len() {
            return Err(ParamsError::TopicCountMismatch);
        }
        let mut i: usize = 0;
        while i < self.topic_params.len()
            invariant
                i <= self.topic_params.len(),
                self.ip_colocation_factor_weight <= 0,
                self.behaviour_penalty_weight <= 0,
                self.ip_colocation_factor_threshold > 0,
                decay_in_range(self.behaviour_penalty_decay),
                self.decay_to_zero > 0,
                self.topics.len() == self.topic_params.len(),
                forall|j: int| 0 <= j < i ==> self.topic_params[j].valid(),
            decreases self.topic_params.len() - i,
        {
            match self.topic_params[i].validate() {
                Ok(_) => {},
                Err(e) => {
                    proof {
                        assert(self.first_bad_at(i as int));
                        let c = choose|c: int| self.first_bad_at(c);
                        if c < i {
                            assert(self.topic_params[c].valid());
                        }
                        if i < c {
                            assert(self.topic_params[i as int].valid());
                        }
                    }
                    return Err(e);
                },
            }
            i += 1;
        }
        proof {
            if exists|c: int| self.first_bad_at(c) {
                let c = choose|c: int| self.first_bad_at(c);
                assert(self.topic_params[c].valid());
            }
        }
        Ok(())
    }

    /// The position under which `topic` is scored, by linear search.
    pub fn find_topic(&self, topic: &TopicHash) -> (r: Option<usize>)
        ensures
            match r {
                Some(i) => i < self.topics.len() && self.topic_index(topic@) == Some(i as int),
                None => self.topic_index(topic@).is_none(),
            },
    {
        let mut i: usize = 0;
        while i < self.topics.len()
            invariant
                i <= self.topics.len(),
                forall|j: int| 0 <= j < i ==> topic_keys(self.topics@)[j] != topic@,
            decreases self.topics.len() - i,
        {
            if self.topics[i].same(topic) {
                proof {
                    lemma_position_found(topic_keys(self.topics@), topic@, i as int);
                }
                return Some(i);
            }
            i += 1;
        }
        proof {
            lemma_position_absent(topic_keys(self.topics@), topic@);
        }
        None
    }
}

} // verus!
