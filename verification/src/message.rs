//! Messages of the protocol, and the fingerprint of a message.

use vstd::prelude::*;
use vstd::string::StringExecFns;
use crate::ident::{PeerId, TopicHash};

verus! {

/// Marks a connection as one that speaks this protocol.
#[derive(Debug, Clone)]
pub struct ProtocolConfig {}

impl ProtocolConfig {
    /// Builds a new `ProtocolConfig`.
    pub fn new() -> (r: ProtocolConfig)
        ensures
            r == (ProtocolConfig {  }),
    {
        ProtocolConfig {  }
    }

    /// The name under which the protocol is negotiated.
    pub fn protocol_info(&self) -> (r: &'static str)
        ensures
            r@ == "/meshsub/1.0.0"@,
    {
        "/meshsub/1.0.0"
    }
}

/// A message received by the gossip system.
#[derive(Debug, Clone)]
pub struct GossipsubMessage {
    /// The peer that published this message.
    pub source: PeerId,
    /// Content of the message.
    pub data: Vec<u8>,
    /// A sequence number: eight bytes, most significant first.
    pub sequence_number: Vec<u8>,
    /// The topics this message belongs to.
    pub topics: Vec<TopicHash>,
}

/// A subscription received by the gossip system.
#[derive(Debug, Clone)]
pub struct GossipsubSubscription {
    /// Action to perform.
    pub action: GossipsubSubscriptionAction,
    /// The topic from which to subscribe or unsubscribe.
    pub topic: TopicHash,
}

/// Action that a subscription wants to perform.
#[derive(Debug, Clone, Copy, PartialEq, Eq, Structural, Hash)]
pub enum GossipsubSubscriptionAction {
    /// The remote wants to subscribe to the given topic.
    Subscribe,
    /// The remote wants to unsubscribe from the given topic.
    Unsubscribe,
}

/// A control message received by the gossip system.
#[derive(Debug, Clone)]
pub enum GossipsubControlAction {
    /// The node announces the messages it knows of a topic.
    IHave { topic: TopicHash, message_ids: Vec<String> },
    /// The node asks for messages by their fingerprints.
    IWant { message_ids: Vec<String> },
    /// The node has been added to the mesh of a topic.
    Graft { topic_hash: TopicHash },
    /// The node has been removed from the mesh of a topic.
    Prune { topic_hash: TopicHash },
}

/// An RPC received by the gossip system.
#[derive(Debug, Clone)]
pub struct GossipsubRpc {
    /// Messages that were part of this RPC.
    pub messages: Vec<GossipsubMessage>,
    /// Subscriptions.
    pub subscriptions: Vec<GossipsubSubscription>,
    /// Control messages.
    pub control_msgs: Vec<GossipsubControlAction>,
}

/// The number that eight bytes spell, most significant byte first.
pub open spec fn spec_be_u64(b: Seq<u8>) -> int
    recommends
        b.len() >= 8,
{
    ((((((b[0] as int * 256 + b[1] as int) * 256 + b[2] as int) * 256 + b[3] as int) * 256
        + b[4] as int) * 256 + b[5] as int) * 256 + b[6] as int) * 256 + b[7] as int
}

/// The character of one decimal digit.
pub open spec fn spec_digit(d: int) -> char
    recommends
        0 <= d < 10,
{
    if d == 0 {
        '0'
    } else if d == 1 {
        '1'
    } else if d == 2 {
        '2'
    } else if d == 3 {
        '3'
    } else if d == 4 {
        '4'
    } else if d == 5 {
        '5'
    } else if d == 6 {
        '6'
    } else if d == 7 {
        '7'
    } else if d == 8 {
        '8'
    } else {
        '9'
    }
}

/// The decimal digits of `n`, without leading zeros.
pub open spec fn spec_decimal(n: nat) -> Seq<char>
    decreases n,
{
    if n < 10 {
        seq![spec_digit(n as int)]
    } else {
        spec_decimal(n / 10).push(spec_digit((n % 10) as int))
    }
}

/// `byteorder::BigEndian::read_u64`: reads the first eight bytes of `buf` as a number,
/// most significant byte first. It panics on fewer than eight bytes, which `requires`
/// leaves out.
#[verifier::external_body]
pub(crate) fn read_be_u64(buf: &Vec<u8>) -> (r: u64)
    requires
        buf.len() >= 8,
    ensures
        r as int == spec_be_u64(buf@),
{
    <byteorder::BigEndian as byteorder::ByteOrder>::read_u64(buf.as_slice())
}

/// One decimal digit as text.
pub fn digit_str(d: u64) -> (r: &'static str)
    requires
        d < 10,
    ensures
        r@ == seq![spec_digit(d as int)],
{
    proof {
        reveal_strlit("0");
        reveal_strlit("1");
        reveal_strlit("2");
        reveal_strlit("3");
        reveal_strlit("4");
        reveal_strlit("5");
        reveal_strlit("6");
        reveal_strlit("7");
        reveal_strlit("8");
        reveal_strlit("9");
    }
    let r = if d == 0 {
        "0"
    } else if d == 1 {
        "1"
    } else if d == 2 {
        "2"
    } else if d == 3 {
        "3"
    } else if d == 4 {
        "4"
    } else if d == 5 {
        "5"
    } else if d == 6 {
        "6"
    } else if d == 7 {
        "7"
    } else if d == 8 {
        "8"
    } else {
        "9"
    };
    assert(r@ =~= seq![spec_digit(d as int)]);
    r
}

/// The decimal digits of `n` as text.
pub fn decimal_string(n: u64) -> (r: String)
    ensures
        r@ == spec_decimal(n as nat),
    decreases n,
{
    if n < 10 {
        String::from_str(digit_str(n))
    } else {
        let mut s = decimal_string(n / 10);
        s.append(digit_str(n % 10));
        assert(s@ =~= spec_decimal((n / 10) as nat).push(spec_digit((n % 10) as int)));
        s
    }
}

impl GossipsubMessage {
    /// The sequence number as a number: zero where fewer than eight bytes are given.
    pub open spec fn spec_seqno(&self) -> int {
        if self.sequence_number.len() >= 8 {
            spec_be_u64(self.sequence_number@)
        } else {
            0
        }
    }

    /// The fingerprint: the base58 text of the source, then the sequence number in decimal.
    pub open spec fn spec_msg_id(&self) -> Seq<char> {
        self.source@ + spec_decimal(self.spec_seqno() as nat)
    }

    /// The fingerprint of the message.
    pub fn msg_id(&self) -> (r: String)
        ensures
            r@ == self.spec_msg_id(),
    {
        let mut id = self.source.to_base58();
        let seqno: u64 = if self.sequence_number.len() >= 8 {
            read_be_u64(&self.sequence_number)
        } else {
            0
        };
        let digits = decimal_string(seqno);
        id.append(digits.as_str());
        id
    }
}

} // verus!
