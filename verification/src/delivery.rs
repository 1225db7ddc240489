//! Delivery records: what is known of the validation of one message and of the peers
//! that relayed it, and what each report of the message does to the peer table.

use vstd::prelude::*;
use crate::ident::{
    PeerId, TopicHash, distinct, find_peer, lemma_position_of, peer_keys, topic_keys,
};
use crate::stats::Delivery;
use crate::table::{PeerTable, TableView};
use crate::params::PeerScoreParams;

verus! {

/// What is known of the validity of a message.
#[derive(Clone, Copy, Debug, PartialEq, Eq, Structural)]
pub enum DeliveryStatus {
    /// Not known yet whether the message is valid.
    Unknown,
    /// The message is valid.
    Valid,
    /// The message is invalid.
    Invalid,
    /// The validator said to ignore the message.
    Ignored,
    /// Validation was throttled, so the validity cannot be told.
    Throttled,
}

/// Why a message is rejected.
#[derive(Clone, Copy, Debug, PartialEq, Eq, Structural)]
pub enum RejectMsg {
    MissingSignature,
    InvalidSignature,
    SelfOrigin,
    BlacklistedPeer,
    BlackListenSource,
    ValidationQueueFull,
    ValidationThrottled,
    ValidationIgnored,
    /// The validator found the message invalid.
    ValidationFailed,
}

impl RejectMsg {
    /// The reasons that are noted in the delivery record of the message.
    pub open spec fn spec_recorded(&self) -> bool {
        *self == RejectMsg::ValidationThrottled || *self == RejectMsg::ValidationIgnored || *self
            == RejectMsg::ValidationFailed
    }

    #[verifier::when_used_as_spec(spec_recorded)]
    pub fn recorded(&self) -> (r: bool)
        ensures
            r == self.spec_recorded(),
    {
        match self {
            RejectMsg::ValidationThrottled => true,
            RejectMsg::ValidationIgnored => true,
            RejectMsg::ValidationFailed => true,
            _ => false,
        }
    }
}

/// The record of one message.
#[derive(Clone, Debug)]
pub struct DeliveryRecord {
    pub status: DeliveryStatus,
    pub first_seen: u64,
    pub validated: u64,
    /// The peers that relayed the message while its fate was open.
    pub peers: Vec<PeerId>,
}

/// A delivery record as a mathematical value.
pub struct RecordView {
    pub status: DeliveryStatus,
    pub first_seen: u64,
    pub validated: u64,
    pub peers: Seq<Seq<char>>,
}

impl View for DeliveryRecord {
    type V = RecordView;

    open spec fn view(&self) -> RecordView {
        RecordView {
            status: self.status,
            first_seen: self.first_seen,
            validated: self.validated,
            peers: peer_keys(self.peers@),
        }
    }
}

impl RecordView {
    /// The peers of a record form a set: none is noted twice.
    pub open spec fn wf(self) -> bool {
        distinct(self.peers)
    }

    /// The record of a message first heard of at `now`.
    pub open spec fn fresh(now: u64) -> RecordView {
        RecordView {
            status: DeliveryStatus::Unknown,
            first_seen: now,
            validated: now,
            peers: Seq::empty(),
        }
    }

    /// The record after the message was delivered as valid at `now`: a record whose
    /// fate was settled before stays as it is.
    pub open spec fn delivered(self, now: u64) -> RecordView {
        if self.status == DeliveryStatus::Unknown {
            RecordView { status: DeliveryStatus::Valid, validated: now, ..self }
        } else {
            self
        }
    }

    /// The record after `from` relayed the message once more.
    pub open spec fn relayed(self, from: Seq<char>) -> RecordView {
        if !self.peers.contains(from) && (self.status == DeliveryStatus::Unknown || self.status
            == DeliveryStatus::Valid) {
            RecordView { peers: self.peers.push(from), ..self }
        } else {
            self
        }
    }

    /// The record after the message was rejected for a recorded reason: a record whose
    /// fate was settled before stays as it is.
    pub open spec fn rejected(self, reason: RejectMsg) -> RecordView {
        if self.status == DeliveryStatus::Unknown {
            RecordView {
                status: match reason {
                    RejectMsg::ValidationThrottled => DeliveryStatus::Throttled,
                    RejectMsg::ValidationIgnored => DeliveryStatus::Ignored,
                    _ => DeliveryStatus::Invalid,
                },
                peers: Seq::empty(),
                ..self
            }
        } else {
            self
        }
    }
}

impl TableView {
    /// The table after `from` delivered a message as valid: `from` earns the first
    /// delivery, and, unless the fate of the message was settled before, every other
    /// peer of the record earns a duplicate delivery that counts whatever the window.
    pub open spec fn after_delivery(
        self,
        params: PeerScoreParams,
        from: Seq<char>,
        topics: Seq<Seq<char>>,
        rec: RecordView,
        now: u64,
    ) -> TableView {
        let t = self.marked(params, from, topics, Delivery::First);
        if rec.status == DeliveryStatus::Unknown {
            t.marked_each(
                params,
                rec.peers,
                Some(from),
                topics,
                Delivery::Duplicate { validated: None, now },
            )
        } else {
            t
        }
    }

    /// The table after `from` relayed a message once more.
    pub open spec fn after_duplicate(
        self,
        params: PeerScoreParams,
        from: Seq<char>,
        topics: Seq<Seq<char>>,
        rec: RecordView,
        now: u64,
    ) -> TableView {
        if rec.peers.contains(from) {
            self
        } else {
            match rec.status {
                DeliveryStatus::Valid => self.marked(
                    params,
                    from,
                    topics,
                    Delivery::Duplicate { validated: Some(rec.validated), now },
                ),
                DeliveryStatus::Invalid => self.marked(params, from, topics, Delivery::Invalid),
                _ => self,
            }
        }
    }

    /// The table after a message from `from` was rejected for a recorded reason: where
    /// the message is found invalid while its fate was open, `from` and every peer of
    /// the record are charged with an invalid delivery.
    pub open spec fn after_reject(
        self,
        params: PeerScoreParams,
        from: Seq<char>,
        topics: Seq<Seq<char>>,
        reason: RejectMsg,
        rec: RecordView,
    ) -> TableView {
        if rec.status == DeliveryStatus::Unknown && reason == RejectMsg::ValidationFailed {
            self.marked(params, from, topics, Delivery::Invalid).marked_each(
                params,
                rec.peers,
                None,
                topics,
                Delivery::Invalid,
            )
        } else {
            self
        }
    }

    /// The table after a message from `from` was rejected for a reason that is not
    /// recorded: only a message that claims this node as its origin is charged.
    pub open spec fn after_unrecorded_reject(
        self,
        params: PeerScoreParams,
        from: Seq<char>,
        topics: Seq<Seq<char>>,
        reason: RejectMsg,
    ) -> TableView {
        if reason == RejectMsg::SelfOrigin {
            self.marked(params, from, topics, Delivery::Invalid)
        } else {
            self
        }
    }
}

impl DeliveryRecord {
    /// The record of a message first heard of at `now`.
    pub fn new(now: u64) -> (r: DeliveryRecord)
        ensures
            r@ == RecordView::fresh(now),
            r@.wf(),
    {
        let r = DeliveryRecord {
            status: DeliveryStatus::Unknown,
            first_seen: now,
            validated: now,
            peers: Vec::new(),
        };
        assert(r@.peers =~= Seq::<Seq<char>>::empty());
        r
    }

    /// Whether `peer` is noted in the record.
    pub fn has_peer(&self, peer: &PeerId) -> (r: bool)
        ensures
            r == self@.peers.contains(peer@),
    {
        let found = find_peer(&self.peers, peer);
        proof {
            lemma_position_of(self@.peers, peer@);
        }
        found.is_some()
    }
}

impl PeerTable {
    /// `from` delivered the message of `rec` as valid at `now`. Returns the record as
    /// it is to be kept.
    pub fn on_deliver(
        &mut self,
        from: &PeerId,
        topics: &Vec<TopicHash>,
        rec: DeliveryRecord,
        now: u64,
    ) -> (r: DeliveryRecord)
        requires
            old(self).wf(),
        ensures
            final(self).wf(),
            final(self).params == old(self).params,
            final(self)@ == old(self)@.after_delivery(
                old(self).params,
                from@,
                topic_keys(topics@),
                rec@,
                now,
            ),
            r@ == rec@.delivered(now),
            rec@.wf() ==> r@.wf(),
    {
        let mut rec = rec;
        self.mark(from, topics, Delivery::First);
        if rec.status == DeliveryStatus::Unknown {
            rec.status = DeliveryStatus::Valid;
            rec.validated = now;
            self.mark_each(
                &rec.peers,
                Some(from),
                topics,
                Delivery::Duplicate { validated: None, now },
            );
        }
        rec
    }

    /// `from` relayed the message of `rec` once more at `now`. Returns the record as
    /// it is to be kept.
    pub fn on_duplicate(
        &mut self,
        from: &PeerId,
        topics: &Vec<TopicHash>,
        rec: DeliveryRecord,
        now: u64,
    ) -> (r: DeliveryRecord)
        requires
            old(self).wf(),
        ensures
            final(self).wf(),
            final(self).params == old(self).params,
            final(self)@ == old(self)@.after_duplicate(
                old(self).params,
                from@,
                topic_keys(topics@),
                rec@,
                now,
            ),
            r@ == rec@.relayed(from@),
            rec@.wf() ==> r@.wf(),
    {
        let ghost given = rec@;
        let mut rec = rec;
        if rec.has_peer(from) {
            return rec;
        }
        match rec.status {
            DeliveryStatus::Unknown => {
                rec.peers.push(from.clone());
                assert(rec@.peers =~= given.peers.push(from@));
            },
            DeliveryStatus::Valid => {
                rec.peers.push(from.clone());
                assert(rec@.peers =~= given.peers.push(from@));
                self.mark(
                    from,
                    topics,
                    Delivery::Duplicate { validated: Some(rec.validated), now },
                );
            },
            DeliveryStatus::Invalid => {
                self.mark(from, topics, Delivery::Invalid);
            },
            DeliveryStatus::Throttled => {},
            DeliveryStatus::Ignored => {},
        }
        rec
    }

    /// A message from `from` was rejected for a recorded reason. Returns the record as
    /// it is to be kept.
    pub fn on_reject(
        &mut self,
        from: &PeerId,
        topics: &Vec<TopicHash>,
        reason: RejectMsg,
        rec: DeliveryRecord,
    ) -> (r: DeliveryRecord)
        requires
            old(self).wf(),
            reason.recorded(),
        ensures
            final(self).wf(),
            final(self).params == old(self).params,
            final(self)@ == old(self)@.after_reject(
                old(self).params,
                from@,
                topic_keys(topics@),
                reason,
                rec@,
            ),
            r@ == rec@.rejected(reason),
            rec@.wf() ==> r@.wf(),
    {
        let mut rec = rec;
        if rec.status != DeliveryStatus::Unknown {
            return rec;
        }
        match reason {
            RejectMsg::ValidationThrottled => {
                rec.status = DeliveryStatus::Throttled;
            },
            RejectMsg::ValidationIgnored => {
                rec.status = DeliveryStatus::Ignored;
            },
            _ => {
                rec.status = DeliveryStatus::Invalid;
                self.mark(from, topics, Delivery::Invalid);
                self.mark_each(&rec.peers, None, topics, Delivery::Invalid);
            },
        }
        rec.peers = Vec::new();
        assert(rec@.peers =~= Seq::<Seq<char>>::empty());
        rec
    }

    /// A message from `from` was rejected for a reason that is not recorded.
    pub fn on_unrecorded_reject(&mut self, from: &PeerId, topics: &Vec<TopicHash>, reason: RejectMsg)
        requires
            old(self).wf(),
            !reason.recorded(),
        ensures
            final(self).wf(),
            final(self).params == old(self).params,
            final(self)@ == old(self)@.after_unrecorded_reject(
                old(self).params,
                from@,
                topic_keys(topics@),
                reason,
            ),
    {
        match reason {
            RejectMsg::SelfOrigin => {
                self.mark(from, topics, Delivery::Invalid);
            },
            _ => {},
        }
    }
}

} // verus!
