//! The scoring engine: the peer table together with the time cache of delivery records.

use vstd::prelude::*;
use lru_time_cache::LruCache;
use crate::delivery::{DeliveryRecord, RecordView, RejectMsg};
use crate::ident::{IpAddr, PeerId, TopicHash, topic_keys};
use crate::message::GossipsubMessage;
use crate::params::{ParamsError, PeerScoreParams};
use crate::peer::{PeerStats, PeerStatsView};
use crate::stats::{Delivery, TopicStats};
use crate::table::{PeerTable, remaining_ips};

verus! {

/// The number of seconds for which a delivery record is kept.
pub const TIME_CACHE_DURATION: u64 = 120;

/// The time cache of the `lru_time_cache` crate: an opaque value, spoken of only
/// through `cache_entries`.
#[verifier::external_type_specification]
#[verifier::external_body]
#[verifier::reject_recursive_types(Key)]
#[verifier::reject_recursive_types(Value)]
pub struct ExLruCache<Key, Value>(LruCache<Key, Value>);

/// The records that a cache holds, by fingerprint: all that are stored, those included
/// whose time has run out and which the cache has not dropped yet.
pub uninterp spec fn cache_entries(cache: LruCache<String, DeliveryRecord>) -> Map<
    Seq<char>,
    RecordView,
>;

/// No record at all.
pub open spec fn no_records() -> Map<Seq<char>, RecordView> {
    Map::empty()
}

/// `new` holds `rec` under `key`, and whatever else it holds, `old` held before.
pub open spec fn written(
    old: Map<Seq<char>, RecordView>,
    new: Map<Seq<char>, RecordView>,
    key: Seq<char>,
    rec: RecordView,
) -> bool {
    &&& new.contains_key(key)
    &&& new[key] == rec
    &&& forall|k: Seq<char>| k != key && #[trigger] new.contains_key(k) ==> old.contains_key(k) && new[k] == old[k]
}

/// `rec` is what a look into `entries` under `key` at `now` may find: the record stored
/// there, or, where none is stored or its time has run out, a fresh one.
pub open spec fn found(entries: Map<Seq<char>, RecordView>, key: Seq<char>, rec: RecordView, now: u64)
    -> bool {
    rec == RecordView::fresh(now) || (entries.contains_key(key) && entries[key] == rec)
}

/// `LruCache::with_expiry_duration`: an empty cache whose entries run out after
/// `seconds` seconds.
#[verifier::external_body]
pub(crate) fn cache_new(seconds: u64) -> (r: LruCache<String, DeliveryRecord>)
    requires
        seconds <= 3600,
    ensures
        cache_entries(r) == no_records(),
{
    LruCache::with_expiry_duration(std::time::Duration::from_secs(seconds))
}

/// `LruCache::peek`: a copy of the record stored under `key` if its time has not run
/// out. The cache is left as it is. Nothing is said of when `None` is returned, since
/// that depends on the clock.
#[verifier::external_body]
pub(crate) fn cache_peek(cache: &LruCache<String, DeliveryRecord>, key: &String) -> (r: Option<
    DeliveryRecord,
>)
    ensures
        match r {
            Some(rec) => cache_entries(*cache).contains_key(key@) && cache_entries(*cache)[key@]
                == rec@,
            None => true,
        },
{
    cache.peek(key).cloned()
}

/// `LruCache::remove`: takes out and returns the record stored under `key`, whether or
/// not its time has run out; the other records stay.
#[verifier::external_body]
pub(crate) fn cache_remove(cache: &mut LruCache<String, DeliveryRecord>, key: &String) -> (r:
    Option<DeliveryRecord>)
    ensures
        cache_entries(*final(cache)) == cache_entries(*old(cache)).remove(key@),
        match r {
            Some(rec) => cache_entries(*old(cache)).contains_key(key@) && cache_entries(
                *old(cache),
            )[key@] == rec@,
            None => !cache_entries(*old(cache)).contains_key(key@),
        },
{
    cache.remove(key)
}

/// `LruCache::insert`: stores `rec` under `key`, in place of what was stored there.
/// Records whose time has run out may be dropped on the way; no other record changes.
#[verifier::external_body]
pub(crate) fn cache_insert(
    cache: &mut LruCache<String, DeliveryRecord>,
    key: String,
    rec: DeliveryRecord,
)
    ensures
        written(cache_entries(*old(cache)), cache_entries(*final(cache)), key@, rec@),
{
    let _ = cache.insert(key, rec);
}

/// The scoring engine.
pub struct PeerScore {
    pub table: PeerTable,
    pub deliveries: LruCache<String, DeliveryRecord>,
}

impl PeerScore {
    /// The peer table is well formed, and the peers of every record form a set.
    pub open spec fn wf(&self) -> bool {
        &&& self.table.wf()
        &&& forall|k: Seq<char>|
            self.records().contains_key(k) ==> (#[trigger] self.records()[k]).wf()
    }

    /// The delivery records that the engine holds, by fingerprint.
    pub open spec fn records(&self) -> Map<Seq<char>, RecordView> {
        cache_entries(self.deliveries)
    }

    /// Creates an engine without peers or records, if the parameters are valid.
    pub fn new(params: PeerScoreParams) -> (r: Result<PeerScore, ParamsError>)
        ensures
            match r {
                Ok(e) => params.valid() && e.wf() && e.table.params == params
                    && e.table@.keys.len() == 0 && e.records() == no_records(),
                Err(e) => params.defect() == Some(e),
            },
    {
        match PeerTable::new(params) {
            Ok(table) => Ok(PeerScore { table, deliveries: cache_new(TIME_CACHE_DURATION) }),
            Err(e) => Err(e),
        }
    }

    /// The score of `peer`: zero for a peer that is not known. Nothing changes.
    pub fn score(&self, peer: &PeerId) -> (r: i128)
        requires
            self.wf(),
        ensures
            r == self.table@.score(self.table.params, peer@),
    {
        self.table.score(peer)
    }

    /// The stats of `peer`, if it is known.
    pub fn peer_stats(&self, peer: &PeerId) -> (r: Option<&PeerStats>)
        requires
            self.wf(),
        ensures
            match r {
                Some(s) => self.table@.get(peer@) == Some(s@),
                None => self.table@.get(peer@).is_none(),
            },
    {
        self.table.get(peer)
    }

    /// The stats of `peer` on `topic`, if the peer is known, the topic is scored and an
    /// event has created them.
    pub fn topic_stats(&self, peer: &PeerId, topic: &TopicHash) -> (r: Option<TopicStats>)
        requires
            self.wf(),
        ensures
            r == match self.table@.get(peer@) {
                Some(v) => v.topic_stats(self.table.params, topic@),
                None => None,
            },
    {
        match self.table.get(peer) {
            Some(s) => s.stats_for(&self.table.params, topic),
            None => None,
        }
    }

    /// The known addresses of `peer`, open to change: whatever the caller leaves there
    /// are the addresses of the peer from then on. How many peers share an address is
    /// counted from these lists, so no change here can set the two at odds.
    pub fn get_ips_mut(&mut self, peer: &PeerId) -> (r: Option<&mut Vec<IpAddr>>)
        requires
            old(self).wf(),
        ensures
            final(self).deliveries == old(self).deliveries,
            match r {
                Some(ips) => old(self).table@.get(peer@).is_some() && ips@ == old(
                    self,
                ).table@.get(peer@).unwrap().known_ips && final(self).table@.keys == old(
                    self,
                ).table@.keys && final(self).table@.stats =~= old(self).table@.set(
                    peer@,
                    PeerStatsView {
                        known_ips: final(ips)@,
                        ..old(self).table@.get(peer@).unwrap()
                    },
                ).stats && final(self).table.params == old(self).table.params && old(
                    self,
                ).table@.set(
                    peer@,
                    PeerStatsView {
                        known_ips: final(ips)@,
                        ..old(self).table@.get(peer@).unwrap()
                    },
                ).wf(old(self).table.params),
                None => old(self).table@.get(peer@).is_none() && *final(self) == *old(self),
            },
    {
        self.table.get_ips_mut(peer)
    }

    /// Takes the addresses `gone` from the known addresses of `peer`.
    pub fn remove_ips(&mut self, peer: &PeerId, gone: &Vec<IpAddr>)
        requires
            old(self).wf(),
        ensures
            final(self).wf(),
            final(self).table.params == old(self).table.params,
            final(self).records() == old(self).records(),
            final(self).table@ == match old(self).table@.get(peer@) {
                Some(v) => old(self).table@.set(
                    peer@,
                    PeerStatsView { known_ips: remaining_ips(v.known_ips, gone@), ..v },
                ),
                None => old(self).table@,
            },
    {
        self.table.remove_ips(peer, gone);
        assert(self.records() == old(self).records());
    }

    /// Adds `count` to the behaviour penalty of `peer`.
    pub fn add_penalty(&mut self, peer: &PeerId, count: usize)
        requires
            old(self).wf(),
        ensures
            final(self).wf(),
            final(self).table.params == old(self).table.params,
            final(self).records() == old(self).records(),
            final(self).table@ == match old(self).table@.get(peer@) {
                Some(v) => old(self).table@.set(peer@, v.penalised(count)),
                None => old(self).table@,
            },
    {
        self.table.add_penalty(peer, count);
        assert(self.records() == old(self).records());
    }

    /// One refresh at `now`: peers whose retention has run out are forgotten, the
    /// counters of connected peers decay, those of disconnected peers stay.
    pub fn refresh_scores(&mut self, now: u64)
        requires
            old(self).wf(),
        ensures
            final(self).wf(),
            final(self).table.params == old(self).table.params,
            final(self).records() == old(self).records(),
            final(self).table@ == old(self).table@.after_refresh(
                old(self).table.params,
                now,
                old(self).table@.keys.len(),
            ),
    {
        self.table.refresh(now);
        assert(self.records() == old(self).records());
    }

    /// `peer` connects from `known_ips`. A peer whose stats were kept is connected
    /// again with its counters as they are.
    pub fn add_peer(&mut self, peer: PeerId, known_ips: Vec<IpAddr>)
        requires
            old(self).wf(),
        ensures
            final(self).wf(),
            final(self).table.params == old(self).table.params,
            final(self).records() == old(self).records(),
            final(self).table@ == old(self).table@.with_peer(
                old(self).table.params,
                peer@,
                known_ips@,
            ),
    {
        self.table.add_peer(peer, known_ips);
        assert(self.records() == old(self).records());
    }

    /// `peer` disconnects at `now`: with a positive score it is forgotten at once, else
    /// its stats are kept for the retention period.
    pub fn remove_peer(&mut self, peer: &PeerId, now: u64)
        requires
            old(self).wf(),
        ensures
            final(self).wf(),
            final(self).table.params == old(self).table.params,
            final(self).records() == old(self).records(),
            final(self).table@ == old(self).table@.after_remove(
                old(self).table.params,
                peer@,
                now,
            ),
    {
        self.table.remove_peer(peer, now);
        assert(self.records() == old(self).records());
    }

    /// This node subscribes to `topic`: nothing is scored.
    pub fn join(&mut self, topic: &TopicHash)
        ensures
            *final(self) == *old(self),
    {
    }

    /// This node leaves `topic`: nothing is scored.
    pub fn leave(&mut self, topic: &TopicHash)
        ensures
            *final(self) == *old(self),
    {
    }

    /// `peer` is grafted to `topic` at `now`.
    pub fn graft(&mut self, peer: &PeerId, topic: &TopicHash, now: u64)
        requires
            old(self).wf(),
        ensures
            final(self).wf(),
            final(self).table.params == old(self).table.params,
            final(self).records() == old(self).records(),
            final(self).table@ == match old(self).table@.get(peer@) {
                Some(v) => old(self).table@.set(
                    peer@,
                    v.grafted(old(self).table.params, topic@, now),
                ),
                None => old(self).table@,
            },
    {
        self.table.graft(peer, topic, now);
        assert(self.records() == old(self).records());
    }

    /// `peer` is pruned from `topic`.
    pub fn prune(&mut self, peer: &PeerId, topic: &TopicHash)
        requires
            old(self).wf(),
        ensures
            final(self).wf(),
            final(self).table.params == old(self).table.params,
            final(self).records() == old(self).records(),
            final(self).table@ == match old(self).table@.get(peer@) {
                Some(v) => old(self).table@.set(peer@, v.pruned(old(self).table.params, topic@)),
                None => old(self).table@,
            },
    {
        self.table.prune(peer, topic);
        assert(self.records() == old(self).records());
    }

    /// Counts an invalid delivery against `peer` on every scored topic of `msg`.
    pub fn mark_invalid_message_delivery(&mut self, peer: &PeerId, msg: &GossipsubMessage)
        requires
            old(self).wf(),
        ensures
            final(self).wf(),
            final(self).table.params == old(self).table.params,
            final(self).records() == old(self).records(),
            final(self).table@ == old(self).table@.marked(
                old(self).table.params,
                peer@,
                topic_keys(msg.topics@),
                Delivery::Invalid,
            ),
    {
        self.table.mark(peer, &msg.topics, Delivery::Invalid);
        assert(self.records() == old(self).records());
    }

    /// Counts a first delivery for `peer` on every scored topic of `msg`, up to the
    /// cap, and a mesh delivery as well where the peer is in the mesh of the topic.
    pub fn mark_first_message_delivery(&mut self, peer: &PeerId, msg: &GossipsubMessage)
        requires
            old(self).wf(),
        ensures
            final(self).wf(),
            final(self).table.params == old(self).table.params,
            final(self).records() == old(self).records(),
            final(self).table@ == old(self).table@.marked(
                old(self).table.params,
                peer@,
                topic_keys(msg.topics@),
                Delivery::First,
            ),
    {
        self.table.mark(peer, &msg.topics, Delivery::First);
        assert(self.records() == old(self).records());
    }

    /// Counts a mesh delivery for `peer` on every scored topic of `msg` in whose mesh
    /// the peer is, up to the cap, unless the message was validated at
    /// `validated_time` and `now` is past the delivery window of the topic.
    pub fn mark_duplicate_message_delivery(
        &mut self,
        peer: &PeerId,
        msg: &GossipsubMessage,
        validated_time: Option<u64>,
        now: u64,
    )
        requires
            old(self).wf(),
        ensures
            final(self).wf(),
            final(self).table.params == old(self).table.params,
            final(self).records() == old(self).records(),
            final(self).table@ == old(self).table@.marked(
                old(self).table.params,
                peer@,
                topic_keys(msg.topics@),
                Delivery::Duplicate { validated: validated_time, now },
            ),
    {
        self.table.mark(peer, &msg.topics, Delivery::Duplicate { validated: validated_time, now });
        assert(self.records() == old(self).records());
    }

    /// The record that a rejection at `now` works on: the one stored under `key`,
    /// whether or not its time has run out, or a fresh one where none is stored.
    pub open spec fn record_or_fresh(&self, key: Seq<char>, now: u64) -> RecordView {
        if self.records().contains_key(key) {
            self.records()[key]
        } else {
            RecordView::fresh(now)
        }
    }

    /// The message with fingerprint `key` enters validation at `now`: a record is
    /// opened for it unless a live one is found. The peer table stays as it is.
    pub fn validate_message_with_id(&mut self, from: &PeerId, key: String, now: u64)
        requires
            old(self).wf(),
        ensures
            final(self).wf(),
            final(self).table == old(self).table,
            exists|rec: RecordView|
                found(old(self).records(), key@, rec, now) && written(
                    old(self).records(),
                    final(self).records(),
                    key@,
                    rec,
                ),
    {
        let rec = match cache_peek(&self.deliveries, &key) {
            Some(rec) => rec,
            None => DeliveryRecord::new(now),
        };
        assert(found(old(self).records(), key@, rec@, now));
        cache_insert(&mut self.deliveries, key, rec);
    }

    /// `from` delivered the message with fingerprint `key` as valid at `now`. The
    /// record of the message is the one found in the cache, or a fresh one; the table
    /// changes as `after_delivery` says of that record, and the record is stored as
    /// `delivered` says.
    pub fn deliver_message_with_id(
        &mut self,
        from: &PeerId,
        key: String,
        topics: &Vec<TopicHash>,
        now: u64,
    )
        requires
            old(self).wf(),
        ensures
            final(self).wf(),
            final(self).table.params == old(self).table.params,
            exists|rec: RecordView|
                found(old(self).records(), key@, rec, now) && final(self).table@
                    == old(self).table@.after_delivery(
                    old(self).table.params,
                    from@,
                    topic_keys(topics@),
                    rec,
                    now,
                ) && written(
                    old(self).records(),
                    final(self).records(),
                    key@,
                    rec.delivered(now),
                ),
    {
        let rec = match cache_peek(&self.deliveries, &key) {
            Some(rec) => rec,
            None => DeliveryRecord::new(now),
        };
        let ghost r0 = rec@;
        assert(found(old(self).records(), key@, r0, now));
        let kept = self.table.on_deliver(from, topics, rec, now);
        cache_insert(&mut self.deliveries, key, kept);
    }

    /// `from` relayed the message with fingerprint `key` once more at `now`. The
    /// record of the message is the one found in the cache, or a fresh one; the table
    /// changes as `after_duplicate` says of that record, and the record is stored as
    /// `relayed` says.
    pub fn duplicated_message_with_id(
        &mut self,
        from: &PeerId,
        key: String,
        topics: &Vec<TopicHash>,
        now: u64,
    )
        requires
            old(self).wf(),
        ensures
            final(self).wf(),
            final(self).table.params == old(self).table.params,
            exists|rec: RecordView|
                found(old(self).records(), key@, rec, now) && final(self).table@
                    == old(self).table@.after_duplicate(
                    old(self).table.params,
                    from@,
                    topic_keys(topics@),
                    rec,
                    now,
                ) && written(
                    old(self).records(),
                    final(self).records(),
                    key@,
                    rec.relayed(from@),
                ),
    {
        let rec = match cache_peek(&self.deliveries, &key) {
            Some(rec) => rec,
            None => DeliveryRecord::new(now),
        };
        let ghost r0 = rec@;
        assert(found(old(self).records(), key@, r0, now));
        let kept = self.table.on_duplicate(from, topics, rec, now);
        cache_insert(&mut self.deliveries, key, kept);
    }

    /// The message with fingerprint `key`, sent by `from`, was rejected at `now` for
    /// `reason`. A reason that is not recorded leaves the records as they are; a
    /// recorded one takes the record of the message out, or a fresh one, and stores it
    /// as `rejected` says.
    pub fn reject_message_with_id(
        &mut self,
        from: &PeerId,
        key: String,
        topics: &Vec<TopicHash>,
        reason: RejectMsg,
        now: u64,
    )
        requires
            old(self).wf(),
        ensures
            final(self).wf(),
            final(self).table.params == old(self).table.params,
            !reason.recorded() ==> final(self).records() == old(self).records()
                && final(self).table@ == old(self).table@.after_unrecorded_reject(
                old(self).table.params,
                from@,
                topic_keys(topics@),
                reason,
            ),
            reason.recorded() ==> final(self).table@ == old(self).table@.after_reject(
                old(self).table.params,
                from@,
                topic_keys(topics@),
                reason,
                old(self).record_or_fresh(key@, now),
            ) && written(
                old(self).records().remove(key@),
                final(self).records(),
                key@,
                old(self).record_or_fresh(key@, now).rejected(reason),
            ),
    {
        if !reason.recorded() {
            self.table.on_unrecorded_reject(from, topics, reason);
            return ;
        }
        let rec = match cache_remove(&mut self.deliveries, &key) {
            Some(rec) => rec,
            None => DeliveryRecord::new(now),
        };
        let kept = self.table.on_reject(from, topics, reason, rec);
        cache_insert(&mut self.deliveries, key, kept);
    }
    /// A message enters validation at `now`: a record is opened for it unless a live
    /// one is found. The peer table stays as it is.
    pub fn validate_message(&mut self, from: &PeerId, msg: &GossipsubMessage, now: u64)
        requires
            old(self).wf(),
        ensures
            final(self).wf(),
            final(self).table == old(self).table,
            exists|rec: RecordView|
                found(old(self).records(), msg.spec_msg_id(), rec, now) && written(
                    old(self).records(),
                    final(self).records(),
                    msg.spec_msg_id(),
                    rec,
                ),
    {
        self.validate_message_with_id(from, msg.msg_id(), now);
    }

    /// `from` delivered `msg` as valid at `now`. The record of the message is the one
    /// found in the cache, or a fresh one; the table changes as `after_delivery` says
    /// of that record, and the record is stored as `delivered` says.
    pub fn deliver_message(&mut self, from: &PeerId, msg: &GossipsubMessage, now: u64)
        requires
            old(self).wf(),
        ensures
            final(self).wf(),
            final(self).table.params == old(self).table.params,
            exists|rec: RecordView|
                found(old(self).records(), msg.spec_msg_id(), rec, now) && final(self).table@
                    == old(self).table@.after_delivery(
                    old(self).table.params,
                    from@,
                    topic_keys(msg.topics@),
                    rec,
                    now,
                ) && written(
                    old(self).records(),
                    final(self).records(),
                    msg.spec_msg_id(),
                    rec.delivered(now),
                ),
    {
        self.deliver_message_with_id(from, msg.msg_id(), &msg.topics, now);
    }

    /// `from` relayed `msg` once more at `now`. The record of the message is the one
    /// found in the cache, or a fresh one; the table changes as `after_duplicate` says
    /// of that record, and the record is stored as `relayed` says.
    pub fn duplicated_message(&mut self, from: &PeerId, msg: &GossipsubMessage, now: u64)
        requires
            old(self).wf(),
        ensures
            final(self).wf(),
            final(self).table.params == old(self).table.params,
            exists|rec: RecordView|
                found(old(self).records(), msg.spec_msg_id(), rec, now) && final(self).table@
                    == old(self).table@.after_duplicate(
                    old(self).table.params,
                    from@,
                    topic_keys(msg.topics@),
                    rec,
                    now,
                ) && written(
                    old(self).records(),
                    final(self).records(),
                    msg.spec_msg_id(),
                    rec.relayed(from@),
                ),
    {
        self.duplicated_message_with_id(from, msg.msg_id(), &msg.topics, now);
    }

    /// A message `msg` from `from` was rejected at `now` for `reason`. A reason that is
    /// not recorded leaves the records as they are; a recorded one takes the record of
    /// the message out, or a fresh one, and stores it as `rejected` says.
    pub fn reject_message(
        &mut self,
        from: &PeerId,
        msg: &GossipsubMessage,
        reason: RejectMsg,
        now: u64,
    )
        requires
            old(self).wf(),
        ensures
            final(self).wf(),
            final(self).table.params == old(self).table.params,
            !reason.recorded() ==> final(self).records() == old(self).records()
                && final(self).table@ == old(self).table@.after_unrecorded_reject(
                old(self).table.params,
                from@,
                topic_keys(msg.topics@),
                reason,
            ),
            reason.recorded() ==> final(self).table@ == old(self).table@.after_reject(
                old(self).table.params,
                from@,
                topic_keys(msg.topics@),
                reason,
                old(self).record_or_fresh(msg.spec_msg_id(), now),
            ) && written(
                old(self).records().remove(msg.spec_msg_id()),
                final(self).records(),
                msg.spec_msg_id(),
                old(self).record_or_fresh(msg.spec_msg_id(), now).rejected(reason),
            ),
    {
        self.reject_message_with_id(from, msg.msg_id(), &msg.topics, reason, now);
    }
}

} // verus!
