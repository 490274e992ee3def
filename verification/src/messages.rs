//! Messages sent over the pub/sub fabric, and their wire codec.
//!
//! Each variant binds to a topic, a quality-of-service level, and a
//! payload: the little-endian bytes of its integer fields in
//! declaration order, with no framing and no field names.  Decoding a
//! message from an unrecognized topic yields [`MqttMessage::Unknown`];
//! that variant cannot be encoded back.

use vstd::prelude::*;
use vstd::string::*;
use crate::error::ConversionError;
use crate::timing::TimeStamp;

verus! {

/// Message published when a node connects to the broker, and re-sent
/// periodically as a heartbeat.
#[derive(Clone, Copy, Debug, Default, PartialEq, Eq, Structural)]
pub struct ConnectionMessage {
    pub node_id: u16,
}

/// Message published when a node leaves the broker, by the node itself
/// or by the broker on its behalf (last will).
#[derive(Clone, Copy, Debug, Default, PartialEq, Eq, Structural)]
pub struct DisconnectionMessage {
    pub node_id: u16,
}

/// Message published on vehicle detection.
#[derive(Clone, Copy, Debug, Default, PartialEq, Eq, Structural)]
pub struct DetectionMessage {
    pub node_id: u16,
    /// Detection distance in mm.
    pub dist: u32,
    /// Detection time in unix seconds.
    pub stamp_s: u64,
    /// Nanoseconds fraction of the unix stamp.
    pub stamp_ns: u32,
}

impl ConnectionMessage {
    pub fn new(node_id: u16) -> (r: ConnectionMessage)
        ensures
            r == (ConnectionMessage { node_id }),
    {
        ConnectionMessage { node_id }
    }
}

impl DisconnectionMessage {
    pub fn new(node_id: u16) -> (r: DisconnectionMessage)
        ensures
            r == (DisconnectionMessage { node_id }),
    {
        DisconnectionMessage { node_id }
    }
}

impl DetectionMessage {
    pub fn new(node_id: u16, dist: u32, stamp_s: u64, stamp_ns: u32) -> (r: DetectionMessage)
        ensures
            r == (DetectionMessage { node_id, dist, stamp_s, stamp_ns }),
    {
        DetectionMessage { node_id, dist, stamp_s, stamp_ns }
    }

    /// The publisher's wall-clock stamp carried by this detection.
    pub open spec fn spec_stamp(self) -> TimeStamp {
        TimeStamp { secs: self.stamp_s, nanos: self.stamp_ns }
    }

    pub fn get_stamp(&self) -> (r: TimeStamp)
        ensures
            r == self.spec_stamp(),
    {
        TimeStamp { secs: self.stamp_s, nanos: self.stamp_ns }
    }
}

/// All messages of the timing fabric.
#[derive(Clone, Debug, PartialEq, Eq)]
pub enum MqttMessage {
    /// A node was connected.
    Connection(ConnectionMessage),
    /// A node was disconnected.
    Disconnection(DisconnectionMessage),
    /// A node detected the vehicle.
    Detection(DetectionMessage),
    /// Zeros all sensors.
    Zero,
    /// A message on an unknown topic; produced on receive only.
    Unknown(String),
}

/// A message in wire form: the topic it travels on, its
/// quality-of-service level, and its payload bytes.
#[derive(Debug)]
pub struct EncodedMessage {
    pub topic: String,
    pub qos: i32,
    pub payload: Vec<u8>,
}

/// The two little-endian bytes of `x`.
pub open spec fn spec_le16(x: u16) -> Seq<u8> {
    seq![(x % 256) as u8, (x / 256) as u8]
}

/// The four little-endian bytes of `x`.
pub open spec fn spec_le32(x: u32) -> Seq<u8> {
    seq![
        (x % 256) as u8,
        ((x / 256) % 256) as u8,
        ((x / 65536) % 256) as u8,
        (x / 16777216) as u8,
    ]
}

/// The eight little-endian bytes of `x`.
pub open spec fn spec_le64(x: u64) -> Seq<u8> {
    seq![
        (x % 256) as u8,
        ((x / 256) % 256) as u8,
        ((x / 65536) % 256) as u8,
        ((x / 16777216) % 256) as u8,
        ((x / 4294967296) % 256) as u8,
        ((x / 1099511627776) % 256) as u8,
        ((x / 281474976710656) % 256) as u8,
        (x / 72057594037927936) as u8,
    ]
}

/// The value of the two little-endian bytes at `i`.
pub open spec fn spec_u16_at(b: Seq<u8>, i: int) -> int {
    b[i] + 256 * b[i + 1]
}

/// The value of the four little-endian bytes at `i`.
pub open spec fn spec_u32_at(b: Seq<u8>, i: int) -> int {
    b[i] + 256 * b[i + 1] + 65536 * b[i + 2] + 16777216 * b[i + 3]
}

/// The value of the eight little-endian bytes at `i`.
pub open spec fn spec_u64_at(b: Seq<u8>, i: int) -> int {
    b[i] + 256 * b[i + 1] + 65536 * b[i + 2] + 16777216 * b[i + 3] + 4294967296 * b[i + 4]
        + 1099511627776 * b[i + 5] + 281474976710656 * b[i + 6] + 72057594037927936 * b[i + 7]
}

/// The topic each sendable message travels on.
pub open spec fn spec_topic(m: MqttMessage) -> Seq<char> {
    match m {
        MqttMessage::Connection(_) => "/connect"@,
        MqttMessage::Disconnection(_) => "/disconnect"@,
        MqttMessage::Detection(_) => "/sensors/detection"@,
        MqttMessage::Zero => "/zero"@,
        MqttMessage::Unknown(_) => Seq::empty(),
    }
}

/// The quality-of-service level of each topic's messages.
pub open spec fn spec_qos(m: MqttMessage) -> int {
    match m {
        MqttMessage::Zero => 1,
        _ => 2,
    }
}

/// The payload bytes of each sendable message.
pub open spec fn spec_payload(m: MqttMessage) -> Seq<u8> {
    match m {
        MqttMessage::Connection(c) => spec_le16(c.node_id),
        MqttMessage::Disconnection(d) => spec_le16(d.node_id),
        MqttMessage::Detection(d) => spec_le16(d.node_id) + spec_le32(d.dist) + spec_le64(
            d.stamp_s,
        ) + spec_le32(d.stamp_ns),
        MqttMessage::Zero => Seq::empty(),
        MqttMessage::Unknown(_) => Seq::empty(),
    }
}

/// Whether `topic` is one of the topics of the fabric.
pub open spec fn spec_known_topic(topic: Seq<char>) -> bool {
    ||| topic == "/connect"@
    ||| topic == "/disconnect"@
    ||| topic == "/zero"@
    ||| topic == "/sensors/detection"@
}

/// What decoding yields on a known topic.
pub open spec fn spec_decode_known(topic: Seq<char>, payload: Seq<u8>) -> Result<
    MqttMessage,
    ConversionError,
> {
    if topic == "/connect"@ {
        if payload.len() == 2 {
            Ok(
                MqttMessage::Connection(
                    ConnectionMessage { node_id: spec_u16_at(payload, 0) as u16 },
                ),
            )
        } else {
            Err(ConversionError::MalformedPayload)
        }
    } else if topic == "/disconnect"@ {
        if payload.len() == 2 {
            Ok(
                MqttMessage::Disconnection(
                    DisconnectionMessage { node_id: spec_u16_at(payload, 0) as u16 },
                ),
            )
        } else {
            Err(ConversionError::MalformedPayload)
        }
    } else if topic == "/zero"@ {
        Ok(MqttMessage::Zero)
    } else {
        if payload.len() == 18 {
            Ok(
                MqttMessage::Detection(
                    DetectionMessage {
                        node_id: spec_u16_at(payload, 0) as u16,
                        dist: spec_u32_at(payload, 2) as u32,
                        stamp_s: spec_u64_at(payload, 6) as u64,
                        stamp_ns: spec_u32_at(payload, 14) as u32,
                    },
                ),
            )
        } else {
            Err(ConversionError::MalformedPayload)
        }
    }
}

/// Compares two string slices character by character.
pub fn str_eq(a: &str, b: &str) -> (r: bool)
    ensures
        r <==> a@ == b@,
{
    let la: usize = a.unicode_len();
    let lb: usize = b.unicode_len();
    if la != lb {
        return false;
    }
    let mut i: usize = 0;
    while i < la
        invariant
            0 <= i <= la,
            la == a@.len(),
            la == b@.len(),
            forall|j: int| 0 <= j < i ==> a@[j] == b@[j],
        decreases la - i,
    {
        if a.get_char(i) != b.get_char(i) {
            return false;
        }
        i += 1;
    }
    proof {
        assert(a@ =~= b@);
    }
    true
}

/// Appends the two little-endian bytes of `x`.
fn push_le16(out: &mut Vec<u8>, x: u16)
    ensures
        final(out)@ == old(out)@ + spec_le16(x),
{
    out.push((x % 256) as u8);
    out.push((x / 256) as u8);
    proof {
        assert(final(out)@ =~= old(out)@ + spec_le16(x));
    }
}

/// Appends the four little-endian bytes of `x`.
fn push_le32(out: &mut Vec<u8>, x: u32)
    ensures
        final(out)@ == old(out)@ + spec_le32(x),
{
    out.push((x % 256) as u8);
    out.push(((x / 256) % 256) as u8);
    out.push(((x / 65536) % 256) as u8);
    out.push((x / 16777216) as u8);
    proof {
        assert(final(out)@ =~= old(out)@ + spec_le32(x));
    }
}

/// Appends the eight little-endian bytes of `x`.
fn push_le64(out: &mut Vec<u8>, x: u64)
    ensures
        final(out)@ == old(out)@ + spec_le64(x),
{
    out.push((x % 256) as u8);
    out.push(((x / 256) % 256) as u8);
    out.push(((x / 65536) % 256) as u8);
    out.push(((x / 16777216) % 256) as u8);
    out.push(((x / 4294967296) % 256) as u8);
    out.push(((x / 1099511627776) % 256) as u8);
    out.push(((x / 281474976710656) % 256) as u8);
    out.push((x / 72057594037927936) as u8);
    proof {
        assert(final(out)@ =~= old(out)@ + spec_le64(x));
    }
}

/// Encodes a message into its wire form.
///
/// Every variant but [`MqttMessage::Unknown`] encodes; `Unknown` is
/// receive-only and yields [`ConversionError::NonConvertable`].
pub fn encode(m: &MqttMessage) -> (r: Result<EncodedMessage, ConversionError>)
    ensures
        m is Unknown <==> r == Err::<EncodedMessage, ConversionError>(
            ConversionError::NonConvertable,
        ),
        !(m is Unknown) ==> (r matches Ok(e) && e.topic@ == spec_topic(*m) && e.qos == spec_qos(*m)
            && e.payload@ == spec_payload(*m)),
{
    match m {
        MqttMessage::Connection(c) => {
            let mut payload: Vec<u8> = Vec::new();
            push_le16(&mut payload, c.node_id);
            Ok(EncodedMessage { topic: String::from_str("/connect"), qos: 2, payload })
        },
        MqttMessage::Disconnection(d) => {
            let mut payload: Vec<u8> = Vec::new();
            push_le16(&mut payload, d.node_id);
            Ok(EncodedMessage { topic: String::from_str("/disconnect"), qos: 2, payload })
        },
        MqttMessage::Detection(d) => {
            let mut payload: Vec<u8> = Vec::new();
            push_le16(&mut payload, d.node_id);
            push_le32(&mut payload, d.dist);
            push_le64(&mut payload, d.stamp_s);
            push_le32(&mut payload, d.stamp_ns);
            proof {
                assert(payload@ =~= spec_payload(*m));
            }
            Ok(EncodedMessage { topic: String::from_str("/sensors/detection"), qos: 2, payload })
        },
        MqttMessage::Zero => {
            let payload: Vec<u8> = Vec::new();
            proof {
                assert(payload@ =~= spec_payload(*m));
            }
            Ok(EncodedMessage { topic: String::from_str("/zero"), qos: 1, payload })
        },
        MqttMessage::Unknown(_) => Err(ConversionError::NonConvertable),
    }
}

/// Reads the two little-endian bytes at `i`.
fn read_u16_at(payload: &Vec<u8>, i: usize) -> (r: u16)
    requires
        i + 2 <= payload@.len(),
    ensures
        r == spec_u16_at(payload@, i as int),
{
    // bind the length so the verifier sees the indices fit a usize
    let _n: usize = payload.len();
    payload[i] as u16 + 256 * payload[i + 1] as u16
}

/// Reads the four little-endian bytes at `i`.
fn read_u32_at(payload: &Vec<u8>, i: usize) -> (r: u32)
    requires
        i + 4 <= payload@.len(),
    ensures
        r == spec_u32_at(payload@, i as int),
{
    // bind the length so the verifier sees the indices fit a usize
    let _n: usize = payload.len();
    payload[i] as u32 + 256 * payload[i + 1] as u32 + 65536 * payload[i + 2] as u32 + 16777216
        * payload[i + 3] as u32
}

/// Reads the eight little-endian bytes at `i`.
fn read_u64_at(payload: &Vec<u8>, i: usize) -> (r: u64)
    requires
        i + 8 <= payload@.len(),
    ensures
        r == spec_u64_at(payload@, i as int),
{
    // bind the length so the verifier sees the indices fit a usize
    let _n: usize = payload.len();
    payload[i] as u64 + 256 * payload[i + 1] as u64 + 65536 * payload[i + 2] as u64 + 16777216
        * payload[i + 3] as u64 + 4294967296 * payload[i + 4] as u64 + 1099511627776 * payload[i
        + 5] as u64 + 281474976710656 * payload[i + 6] as u64 + 72057594037927936 * payload[i
        + 7] as u64
}

/// Decodes a received message from its topic and payload.
///
/// A recognized topic yields its variant, or
/// [`ConversionError::MalformedPayload`] when the payload has the wrong
/// length; an unrecognized topic yields [`MqttMessage::Unknown`]
/// carrying the topic.
pub fn decode(topic: &str, payload: &Vec<u8>) -> (r: Result<MqttMessage, ConversionError>)
    ensures
        spec_known_topic(topic@) ==> r == spec_decode_known(topic@, payload@),
        !spec_known_topic(topic@) ==> (r matches Ok(m) && m matches MqttMessage::Unknown(t)
            && t@ == topic@),
{
    proof {
        reveal_strlit("/connect");
        reveal_strlit("/disconnect");
        reveal_strlit("/zero");
        reveal_strlit("/sensors/detection");
    }
    if str_eq(topic, "/connect") {
        if payload.len() == 2 {
            Ok(MqttMessage::Connection(ConnectionMessage { node_id: read_u16_at(payload, 0) }))
        } else {
            Err(ConversionError::MalformedPayload)
        }
    } else if str_eq(topic, "/disconnect") {
        if payload.len() == 2 {
            Ok(MqttMessage::Disconnection(DisconnectionMessage { node_id: read_u16_at(payload, 0) }))
        } else {
            Err(ConversionError::MalformedPayload)
        }
    } else if str_eq(topic, "/zero") {
        Ok(MqttMessage::Zero)
    } else if str_eq(topic, "/sensors/detection") {
        if payload.len() == 18 {
            Ok(
                MqttMessage::Detection(
                    DetectionMessage {
                        node_id: read_u16_at(payload, 0),
                        dist: read_u32_at(payload, 2),
                        stamp_s: read_u64_at(payload, 6),
                        stamp_ns: read_u32_at(payload, 14),
                    },
                ),
            )
        } else {
            Err(ConversionError::MalformedPayload)
        }
    } else {
        Ok(MqttMessage::Unknown(topic.to_owned()))
    }
}

/// The quality-of-service level used on `topic`, or `None` for a topic
/// outside the fabric.
pub fn topic_qos(topic: &str) -> (r: Option<i32>)
    ensures
        topic@ == "/connect"@ ==> r == Some(2i32),
        topic@ == "/disconnect"@ ==> r == Some(2i32),
        topic@ == "/sensors/detection"@ ==> r == Some(2i32),
        topic@ == "/zero"@ ==> r == Some(1i32),
        !spec_known_topic(topic@) ==> r is None,
{
    proof {
        reveal_strlit("/connect");
        reveal_strlit("/disconnect");
        reveal_strlit("/zero");
        reveal_strlit("/sensors/detection");
        lemma_topics_distinct();
    }
    if str_eq(topic, "/connect") || str_eq(topic, "/disconnect") || str_eq(
        topic,
        "/sensors/detection",
    ) {
        Some(2)
    } else if str_eq(topic, "/zero") {
        Some(1)
    } else {
        None
    }
}

/// The four topics of the fabric are pairwise distinct.
proof fn lemma_topics_distinct()
    ensures
        "/connect"@ != "/disconnect"@,
        "/connect"@ != "/zero"@,
        "/connect"@ != "/sensors/detection"@,
        "/disconnect"@ != "/zero"@,
        "/disconnect"@ != "/sensors/detection"@,
        "/zero"@ != "/sensors/detection"@,
{
    reveal_strlit("/connect");
    reveal_strlit("/disconnect");
    reveal_strlit("/zero");
    reveal_strlit("/sensors/detection");
    assert("/connect"@.len() == 8);
    assert("/disconnect"@.len() == 11);
    assert("/zero"@.len() == 5);
    assert("/sensors/detection"@.len() == 18);
}

/// Reading back the two little-endian bytes of `x` yields `x`.
proof fn lemma_le16_at(b: Seq<u8>, i: int, x: u16)
    requires
        0 <= i,
        i + 2 <= b.len(),
        b[i] == (x % 256) as u8,
        b[i + 1] == (x / 256) as u8,
    ensures
        spec_u16_at(b, i) == x,
{
    vstd::arithmetic::div_mod::lemma_fundamental_div_mod(x as int, 256);
}

/// Reading back the four little-endian bytes of `x` yields `x`.
proof fn lemma_le32_at(b: Seq<u8>, i: int, x: u32)
    requires
        0 <= i,
        i + 4 <= b.len(),
        b[i] == (x % 256) as u8,
        b[i + 1] == ((x / 256) % 256) as u8,
        b[i + 2] == ((x / 65536) % 256) as u8,
        b[i + 3] == (x / 16777216) as u8,
    ensures
        spec_u32_at(b, i) == x,
{
    let xi = x as int;
    vstd::arithmetic::div_mod::lemma_fundamental_div_mod(xi, 256);
    vstd::arithmetic::div_mod::lemma_div_denominator(xi, 256, 256);
    vstd::arithmetic::div_mod::lemma_fundamental_div_mod(xi / 256, 256);
    vstd::arithmetic::div_mod::lemma_div_denominator(xi, 65536, 256);
    vstd::arithmetic::div_mod::lemma_fundamental_div_mod(xi / 65536, 256);
    assert(xi / 256 == (xi / 256) % 256 + 256 * (xi / 65536));
    assert(xi / 65536 == (xi / 65536) % 256 + 256 * (xi / 16777216));
}

/// Reading back the eight little-endian bytes of `x` yields `x`.
proof fn lemma_le64_at(b: Seq<u8>, i: int, x: u64)
    requires
        0 <= i,
        i + 8 <= b.len(),
        b[i] == (x % 256) as u8,
        b[i + 1] == ((x / 256) % 256) as u8,
        b[i + 2] == ((x / 65536) % 256) as u8,
        b[i + 3] == ((x / 16777216) % 256) as u8,
        b[i + 4] == ((x / 4294967296) % 256) as u8,
        b[i + 5] == ((x / 1099511627776) % 256) as u8,
        b[i + 6] == ((x / 281474976710656) % 256) as u8,
        b[i + 7] == (x / 72057594037927936) as u8,
    ensures
        spec_u64_at(b, i) == x,
{
    let xi = x as int;
    vstd::arithmetic::div_mod::lemma_fundamental_div_mod(xi, 256);
    vstd::arithmetic::div_mod::lemma_div_denominator(xi, 256, 256);
    vstd::arithmetic::div_mod::lemma_fundamental_div_mod(xi / 256, 256);
    vstd::arithmetic::div_mod::lemma_div_denominator(xi, 65536, 256);
    vstd::arithmetic::div_mod::lemma_fundamental_div_mod(xi / 65536, 256);
    vstd::arithmetic::div_mod::lemma_div_denominator(xi, 16777216, 256);
    vstd::arithmetic::div_mod::lemma_fundamental_div_mod(xi / 16777216, 256);
    vstd::arithmetic::div_mod::lemma_div_denominator(xi, 4294967296, 256);
    vstd::arithmetic::div_mod::lemma_fundamental_div_mod(xi / 4294967296, 256);
    vstd::arithmetic::div_mod::lemma_div_denominator(xi, 1099511627776, 256);
    vstd::arithmetic::div_mod::lemma_fundamental_div_mod(xi / 1099511627776, 256);
    vstd::arithmetic::div_mod::lemma_div_denominator(xi, 281474976710656, 256);
    vstd::arithmetic::div_mod::lemma_fundamental_div_mod(xi / 281474976710656, 256);
    assert(xi == xi % 256 + 256 * (xi / 256));
    assert(xi / 256 == (xi / 256) % 256 + 256 * (xi / 65536));
    assert(xi / 65536 == (xi / 65536) % 256 + 256 * (xi / 16777216));
    assert(xi / 16777216 == (xi / 16777216) % 256 + 256 * (xi / 4294967296));
    assert(xi / 4294967296 == (xi / 4294967296) % 256 + 256 * (xi / 1099511627776));
    assert(xi / 1099511627776 == (xi / 1099511627776) % 256 + 256 * (xi / 281474976710656));
    assert(xi / 281474976710656 == (xi / 281474976710656) % 256 + 256 * (xi
        / 72057594037927936));
}

/// Round-trip law: every sendable message decodes, from its own topic
/// and payload, back to itself.
pub proof fn lemma_codec_round_trip(m: MqttMessage)
    requires
        !(m is Unknown),
    ensures
        spec_known_topic(spec_topic(m)),
        spec_decode_known(spec_topic(m), spec_payload(m)) == Ok::<MqttMessage, ConversionError>(m),
{
    lemma_topics_distinct();
    match m {
        MqttMessage::Connection(c) => {
            lemma_le16_at(spec_le16(c.node_id), 0, c.node_id);
        },
        MqttMessage::Disconnection(d) => {
            lemma_le16_at(spec_le16(d.node_id), 0, d.node_id);
        },
        MqttMessage::Detection(d) => {
            let p = spec_payload(m);
            assert(p.len() == 18);
            lemma_le16_at(p, 0, d.node_id);
            lemma_le32_at(p, 2, d.dist);
            lemma_le64_at(p, 6, d.stamp_s);
            lemma_le32_at(p, 14, d.stamp_ns);
        },
        MqttMessage::Zero => {
        },
        MqttMessage::Unknown(_) => {
        },
    }
}

} // verus!
