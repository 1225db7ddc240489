//! Per-topic and per-peer statistics, and how each event changes them.

use vstd::prelude::*;
use crate::fixed::{
    SCALE, bump, clamp_i64, clamp_to_i64, decay, deficit_squared, lemma_scaled_mul_shrinks,
    lemma_weighted_bound, ratio, sat_add, scaled_mul, spec_bump, spec_decay,
    spec_deficit_squared, spec_ratio, spec_sat_add, spec_scaled_mul, spec_weighted, weighted,
};
use crate::params::TopicScoreParams;

verus! {

/// Whether a peer is in the mesh of a topic, and since when.
#[derive(Clone, Copy, Debug, PartialEq, Eq, Structural)]
pub enum MeshStatus {
    Active {
        /// When the peer was last grafted.
        graft_time: u64,
        /// How long the peer had been in the mesh at the last refresh, in milliseconds.
        mesh_time: u64,
    },
    InActive,
}

impl MeshStatus {
    /// The status of a peer grafted at `now`.
    pub fn new_active(now: u64) -> (r: Self)
        ensures
            r == (MeshStatus::Active { graft_time: now, mesh_time: 0 }),
    {
        MeshStatus::Active { graft_time: now, mesh_time: 0 }
    }
}

/// What is reported of a message that a peer relayed.
#[derive(Clone, Copy, Debug, PartialEq, Eq, Structural)]
pub enum Delivery {
    /// The peer was the first to deliver the message.
    First,
    /// The peer delivered a message already seen, validated at `validated` (or not yet).
    Duplicate { validated: Option<u64>, now: u64 },
    /// The peer delivered a message found invalid.
    Invalid,
}

/// A duplicate seen at `now` counts when validation had not ended, or ended no longer
/// ago than `window`. A window whose end cannot be represented has elapsed.
pub open spec fn spec_within_window(validated: Option<u64>, window: u64, now: u64) -> bool {
    match validated {
        None => true,
        Some(v) => v + window <= u64::MAX && now <= v + window,
    }
}

pub fn within_window(validated: Option<u64>, window: u64, now: u64) -> (r: bool)
    ensures
        r == spec_within_window(validated, window, now),
{
    match validated {
        None => true,
        Some(v) => {
            if v > u64::MAX - window {
                false
            } else {
                now <= v + window
            }
        },
    }
}

/// Counters of one peer on one topic.
#[derive(Clone, Copy, Debug, PartialEq, Eq, Structural)]
pub struct TopicStats {
    pub mesh_status: MeshStatus,
    pub first_message_deliveries: u64,
    pub mesh_message_deliveries_active: bool,
    pub mesh_message_deliveries: u64,
    pub mesh_failure_penalty: u64,
    pub invalid_message_deliveries: u64,
}

impl TopicStats {
    pub open spec fn spec_default() -> TopicStats {
        TopicStats {
            mesh_status: MeshStatus::InActive,
            first_message_deliveries: 0,
            mesh_message_deliveries_active: false,
            mesh_message_deliveries: 0,
            mesh_failure_penalty: 0,
            invalid_message_deliveries: 0,
        }
    }

    pub open spec fn spec_in_mesh(&self) -> bool {
        self.mesh_status is Active
    }

    /// True if the peer is in the mesh.
    #[verifier::when_used_as_spec(spec_in_mesh)]
    pub fn in_mesh(&self) -> (r: bool)
        ensures
            r == self.spec_in_mesh(),
    {
        match self.mesh_status {
            MeshStatus::Active { .. } => true,
            MeshStatus::InActive => false,
        }
    }

    /// Both delivery counters are within their caps.
    pub open spec fn capped(&self, tp: TopicScoreParams) -> bool {
        &&& self.first_message_deliveries <= tp.first_message_deliveries_cap
        &&& self.mesh_message_deliveries <= tp.mesh_message_deliveries_cap
    }

    /// The stats after one report of a relayed message.
    pub open spec fn spec_marked(&self, tp: TopicScoreParams, kind: Delivery) -> TopicStats {
        match kind {
            Delivery::First => TopicStats {
                first_message_deliveries: spec_bump(
                    self.first_message_deliveries,
                    tp.first_message_deliveries_cap,
                ),
                mesh_message_deliveries: if self.in_mesh() {
                    spec_bump(self.mesh_message_deliveries, tp.mesh_message_deliveries_cap)
                } else {
                    self.mesh_message_deliveries
                },
                ..*self
            },
            Delivery::Duplicate { validated, now } => TopicStats {
                mesh_message_deliveries: if self.in_mesh() && spec_within_window(
                    validated,
                    tp.mesh_message_deliveries_window,
                    now,
                ) {
                    spec_bump(self.mesh_message_deliveries, tp.mesh_message_deliveries_cap)
                } else {
                    self.mesh_message_deliveries
                },
                ..*self
            },
            Delivery::Invalid => TopicStats {
                invalid_message_deliveries: spec_sat_add(self.invalid_message_deliveries, SCALE),
                ..*self
            },
        }
    }

    pub fn marked(&self, tp: &TopicScoreParams, kind: Delivery) -> (r: TopicStats)
        ensures
            r == self.spec_marked(*tp, kind),
            self.capped(*tp) ==> r.capped(*tp),
    {
        let mut r = *self;
        match kind {
            Delivery::First => {
                r.first_message_deliveries =
                bump(self.first_message_deliveries, tp.first_message_deliveries_cap);
                if self.in_mesh() {
                    r.mesh_message_deliveries =
                    bump(self.mesh_message_deliveries, tp.mesh_message_deliveries_cap);
                }
            },
            Delivery::Duplicate { validated, now } => {
                if self.in_mesh() && within_window(
                    validated,
                    tp.mesh_message_deliveries_window,
                    now,
                ) {
                    r.mesh_message_deliveries =
                    bump(self.mesh_message_deliveries, tp.mesh_message_deliveries_cap);
                }
            },
            Delivery::Invalid => {
                r.invalid_message_deliveries = sat_add(self.invalid_message_deliveries, SCALE);
            },
        }
        r
    }

    /// The stats of a peer grafted at `now`.
    pub open spec fn spec_grafted(&self, now: u64) -> TopicStats {
        TopicStats {
            mesh_status: MeshStatus::Active { graft_time: now, mesh_time: 0 },
            mesh_message_deliveries_active: false,
            ..*self
        }
    }

    pub fn grafted(&self, now: u64) -> (r: TopicStats)
        ensures
            r == self.spec_grafted(now),
    {
        let mut r = *self;
        r.mesh_status = MeshStatus::new_active(now);
        r.mesh_message_deliveries_active = false;
        r
    }

    /// The penalty after the sticky charge for a delivery rate below the threshold.
    pub open spec fn charged_penalty(&self, tp: TopicScoreParams) -> u64 {
        spec_sat_add(
            self.mesh_failure_penalty,
            spec_deficit_squared(
                tp.mesh_message_deliveries_threshold,
                self.mesh_message_deliveries,
            ),
        )
    }

    /// The stats of a peer pruned from the mesh.
    pub open spec fn spec_pruned(&self, tp: TopicScoreParams) -> TopicStats {
        TopicStats {
            mesh_status: MeshStatus::InActive,
            mesh_message_deliveries_active: false,
            mesh_failure_penalty: if self.mesh_message_deliveries_active {
                self.charged_penalty(tp)
            } else {
                self.mesh_failure_penalty
            },
            ..*self
        }
    }

    pub fn pruned(&self, tp: &TopicScoreParams) -> (r: TopicStats)
        ensures
            r == self.spec_pruned(*tp),
    {
        let mut r = *self;
        if self.mesh_message_deliveries_active {
            r.mesh_failure_penalty =
            sat_add(
                self.mesh_failure_penalty,
                deficit_squared(
                    tp.mesh_message_deliveries_threshold,
                    self.mesh_message_deliveries,
                ),
            );
        }
        r.mesh_message_deliveries_active = false;
        r.mesh_status = MeshStatus::InActive;
        r
    }

    /// The stats kept of a peer that disconnected.
    pub open spec fn spec_retired(&self, tp: TopicScoreParams) -> TopicStats {
        TopicStats {
            mesh_status: MeshStatus::InActive,
            first_message_deliveries: 0,
            mesh_failure_penalty: if self.in_mesh() && self.mesh_message_deliveries_active {
                self.charged_penalty(tp)
            } else {
                self.mesh_failure_penalty
            },
            ..*self
        }
    }

    pub fn retired(&self, tp: &TopicScoreParams) -> (r: TopicStats)
        ensures
            r == self.spec_retired(*tp),
    {
        let mut r = *self;
        r.first_message_deliveries = 0;
        if self.in_mesh() && self.mesh_message_deliveries_active {
            r.mesh_failure_penalty =
            sat_add(
                self.mesh_failure_penalty,
                deficit_squared(
                    tp.mesh_message_deliveries_threshold,
                    self.mesh_message_deliveries,
                ),
            );
        }
        r.mesh_status = MeshStatus::InActive;
        r
    }

    /// The stats after one refresh at `now`: each counter decayed, the time in the mesh
    /// brought up to date, and the delivery rate armed once that time exceeds the
    /// activation period.
    pub open spec fn spec_decayed(&self, tp: TopicScoreParams, floor: u64, now: u64) -> TopicStats {
        let mesh_time = match self.mesh_status {
            MeshStatus::Active { graft_time, mesh_time } => if now >= graft_time {
                (now - graft_time) as u64
            } else {
                0
            },
            MeshStatus::InActive => 0,
        };
        TopicStats {
            mesh_status: match self.mesh_status {
                MeshStatus::Active { graft_time, mesh_time: _ } => MeshStatus::Active {
                    graft_time,
                    mesh_time,
                },
                MeshStatus::InActive => MeshStatus::InActive,
            },
            first_message_deliveries: spec_decay(
                self.first_message_deliveries,
                tp.first_message_deliveries_decay,
                floor,
            ),
            mesh_message_deliveries_active: self.mesh_message_deliveries_active || (self.in_mesh()
                && mesh_time > tp.mesh_message_deliveries_activation),
            mesh_message_deliveries: spec_decay(
                self.mesh_message_deliveries,
                tp.mesh_message_deliveries_decay,
                floor,
            ),
            mesh_failure_penalty: spec_decay(
                self.mesh_failure_penalty,
                tp.mesh_failure_penalty_decay,
                floor,
            ),
            invalid_message_deliveries: spec_decay(
                self.invalid_message_deliveries,
                tp.invalid_message_deliveries_decay,
                floor,
            ),
        }
    }

    pub fn decayed(&self, tp: &TopicScoreParams, floor: u64, now: u64) -> (r: TopicStats)
        requires
            tp.valid(),
        ensures
            r == self.spec_decayed(*tp, floor, now),
            self.capped(*tp) ==> r.capped(*tp),
    {
        proof {
            lemma_scaled_mul_shrinks(
                self.first_message_deliveries,
                tp.first_message_deliveries_decay,
            );
            lemma_scaled_mul_shrinks(
                self.mesh_message_deliveries,
                tp.mesh_message_deliveries_decay,
            );
        }
        let mut r = *self;
        r.first_message_deliveries =
        decay(self.first_message_deliveries, tp.first_message_deliveries_decay, floor);
        r.mesh_message_deliveries =
        decay(self.mesh_message_deliveries, tp.mesh_message_deliveries_decay, floor);
        r.mesh_failure_penalty =
        decay(self.mesh_failure_penalty, tp.mesh_failure_penalty_decay, floor);
        r.invalid_message_deliveries =
        decay(self.invalid_message_deliveries, tp.invalid_message_deliveries_decay, floor);
        match self.mesh_status {
            MeshStatus::Active { graft_time, mesh_time: _ } => {
                let mesh_time: u64 = if now >= graft_time {
                    now - graft_time
                } else {
                    0
                };
                r.mesh_status = MeshStatus::Active { graft_time, mesh_time };
                if mesh_time > tp.mesh_message_deliveries_activation {
                    r.mesh_message_deliveries_active = true;
                }
            },
            MeshStatus::InActive => {},
        }
        r
    }

    /// The time in the mesh in quanta, held at its cap.
    pub open spec fn time_in_mesh(&self, tp: TopicScoreParams) -> u64 {
        match self.mesh_status {
            MeshStatus::Active { graft_time: _, mesh_time } => {
                let v = spec_ratio(mesh_time, tp.time_in_mesh_quantum);
                if v < tp.time_in_mesh_cap {
                    v
                } else {
                    tp.time_in_mesh_cap
                }
            },
            MeshStatus::InActive => 0,
        }
    }

    /// What is charged for a delivery rate below the threshold, once the rate is armed.
    pub open spec fn delivery_deficit(&self, tp: TopicScoreParams) -> u64 {
        if self.mesh_message_deliveries_active {
            spec_deficit_squared(
                tp.mesh_message_deliveries_threshold,
                self.mesh_message_deliveries,
            )
        } else {
            0
        }
    }

    /// The score of this topic before its weight is applied: time in the mesh, first
    /// deliveries, the squared delivery deficit, the failure penalty and the squared
    /// count of invalid messages, each times its weight.
    pub open spec fn spec_topic_score(&self, tp: TopicScoreParams) -> int {
        spec_weighted(self.time_in_mesh(tp), tp.time_in_mesh_weight) + spec_weighted(
            self.first_message_deliveries,
            tp.first_message_deliveries_weight,
        ) + spec_weighted(self.delivery_deficit(tp), tp.mesh_message_deliveries_weight)
            + spec_weighted(self.mesh_failure_penalty, tp.mesh_failure_penalty_weight)
            + spec_weighted(
            spec_scaled_mul(self.invalid_message_deliveries, self.invalid_message_deliveries),
            tp.invalid_message_deliveries_weight,
        )
    }

    /// The share of this topic in a peer's score: its score, held within 64 bits, times
    /// the topic's weight.
    pub open spec fn spec_contribution(&self, tp: TopicScoreParams) -> int {
        spec_weighted(tp.topic_weight, clamp_i64(self.spec_topic_score(tp)))
    }

    pub fn contribution(&self, tp: &TopicScoreParams) -> (r: i128)
        requires
            tp.time_in_mesh_quantum > 0,
        ensures
            r == self.spec_contribution(*tp),
    {
        let time_units: u64 = match self.mesh_status {
            MeshStatus::Active { graft_time: _, mesh_time } => {
                let v = ratio(mesh_time, tp.time_in_mesh_quantum);
                if v < tp.time_in_mesh_cap {
                    v
                } else {
                    tp.time_in_mesh_cap
                }
            },
            MeshStatus::InActive => 0,
        };
        let deficit: u64 = if self.mesh_message_deliveries_active {
            deficit_squared(tp.mesh_message_deliveries_threshold, self.mesh_message_deliveries)
        } else {
            0
        };
        let invalid_squared: u64 = scaled_mul(self.invalid_message_deliveries, self.invalid_message_deliveries);
        proof {
            lemma_weighted_bound(time_units, tp.time_in_mesh_weight);
            lemma_weighted_bound(
                self.first_message_deliveries,
                tp.first_message_deliveries_weight,
            );
            lemma_weighted_bound(deficit, tp.mesh_message_deliveries_weight);
            lemma_weighted_bound(self.mesh_failure_penalty, tp.mesh_failure_penalty_weight);
            lemma_weighted_bound(invalid_squared, tp.invalid_message_deliveries_weight);
        }
        let from_time: i128 = weighted(time_units, tp.time_in_mesh_weight);
        let from_first: i128 = weighted(
            self.first_message_deliveries,
            tp.first_message_deliveries_weight,
        );
        let from_deficit: i128 = weighted(deficit, tp.mesh_message_deliveries_weight);
        let from_failures: i128 = weighted(self.mesh_failure_penalty, tp.mesh_failure_penalty_weight);
        let from_invalid: i128 = weighted(invalid_squared, tp.invalid_message_deliveries_weight);
        let topic_score: i128 = from_time + from_first + from_deficit + from_failures + from_invalid;
        weighted(tp.topic_weight, clamp_to_i64(topic_score))
    }
}

impl Default for TopicStats {
    fn default() -> (r: Self)
        ensures
            r == TopicStats::spec_default(),
    {
        TopicStats {
            mesh_status: MeshStatus::InActive,
            first_message_deliveries: 0,
            mesh_message_deliveries_active: false,
            mesh_message_deliveries: 0,
            mesh_failure_penalty: 0,
            invalid_message_deliveries: 0,
        }
    }
}

/// Whether a peer is connected, or until when its stats are kept.
#[derive(Clone, Copy, Debug, PartialEq, Eq, Structural)]
pub enum ConnectionStatus {
    Connected,
    Disconnected {
        /// When the stats of the disconnected peer expire.
        expire: u64,
    },
}

} // verus!
