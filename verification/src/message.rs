//! Wire message types: keys, stored values, client requests and
//! responses, internode requests and responses, and the partitioner
//! that assigns a key to a shard.

use vstd::prelude::*;

verus! {

/// A plain byte payload.
pub type Buffer = Vec<u8>;

/// The key used to look up a given value: an ordered triple of opaque
/// byte sequences. Only `pkey` takes part in shard assignment.
#[derive(Debug, Clone, PartialEq, Eq)]
pub struct Key {
    pub dataset: Buffer,
    pub pkey: Buffer,
    pub lkey: Buffer,
}

/// Mathematical model of a `Key`.
#[verifier::ext_equal]
pub struct KeyV {
    pub dataset: Seq<u8>,
    pub pkey: Seq<u8>,
    pub lkey: Seq<u8>,
}

impl View for Key {
    type V = KeyV;

    open spec fn view(&self) -> KeyV {
        KeyV { dataset: self.dataset@, pkey: self.pkey@, lkey: self.lkey@ }
    }
}

/// Any of the possible stored values on a storage node.
#[derive(Debug, Clone, PartialEq)]
pub enum Value {
    /// The absence marker: there is no value stored for the given key.
    /// Never stored itself; it appears only in read replies.
    Absent,
    /// A stored payload, timestamped by the handler that wrote it.
    Value { content: Buffer, timestamp: u64 },
    /// A deletion marker; a stored value in its own right, totally
    /// ordered against live values by its timestamp.
    Tombstone { timestamp: u64 },
}

/// Mathematical model of a `Value`.
#[verifier::ext_equal]
pub enum ValueV {
    Absent,
    Value { content: Seq<u8>, timestamp: u64 },
    Tombstone { timestamp: u64 },
}

impl View for Value {
    type V = ValueV;

    open spec fn view(&self) -> ValueV {
        match self {
            Value::Absent => ValueV::Absent,
            Value::Value { content, timestamp } => ValueV::Value {
                content: content@,
                timestamp: *timestamp,
            },
            Value::Tombstone { timestamp } => ValueV::Tombstone { timestamp: *timestamp },
        }
    }
}

/// The timestamp carried by a stored value, if it has one.
pub open spec fn value_timestamp(v: ValueV) -> Option<u64> {
    match v {
        ValueV::Absent => None,
        ValueV::Value { timestamp, .. } => Some(timestamp),
        ValueV::Tombstone { timestamp } => Some(timestamp),
    }
}

/// Consistency level for a request or response. Decides how the
/// handler reconciles diverging replica answers on reads.
#[derive(Debug, Clone, Copy, PartialEq, Eq, Structural)]
pub enum Consistency {
    /// Wait for one storage node to reply before responding.
    One,
    /// Wait for all storage nodes and answer with the newest value.
    Latest,
}

/// A request's possible actions, performed by a handler.
#[derive(Debug, Clone, PartialEq)]
pub enum Action {
    /// Read the given key and receive a `Response::Value`.
    Read { key: Key },
    /// Write the given content under the key; receive a `Response::WriteAck`.
    Write { key: Key, content: Buffer },
    /// Delete the given key; receive a `Response::WriteAck`.
    Delete { key: Key },
}

/// Mathematical model of an `Action`.
#[verifier::ext_equal]
pub enum ActionV {
    Read { key: KeyV },
    Write { key: KeyV, content: Seq<u8> },
    Delete { key: KeyV },
}

impl View for Action {
    type V = ActionV;

    open spec fn view(&self) -> ActionV {
        match self {
            Action::Read { key } => ActionV::Read { key: key@ },
            Action::Write { key, content } => ActionV::Write { key: key@, content: content@ },
            Action::Delete { key } => ActionV::Delete { key: key@ },
        }
    }
}

/// A client request.
#[derive(Debug, Clone, PartialEq)]
pub struct Request {
    pub action: Action,
    pub consistency: Consistency,
}

/// Mathematical model of a `Request`.
#[verifier::ext_equal]
pub struct RequestV {
    pub action: ActionV,
    pub consistency: Consistency,
}

impl View for Request {
    type V = RequestV;

    open spec fn view(&self) -> RequestV {
        RequestV { action: self.action@, consistency: self.consistency }
    }
}

/// A request's response.
#[derive(Debug, Clone, PartialEq)]
pub enum Response {
    /// A stored value, reconciled under the required consistency.
    Value { key: Key, value: Value },
    /// The requested write has been stored under the required consistency.
    WriteAck { key: Key, timestamp: u64 },
    /// There was an error performing the operation on the key.
    Error { key: Key, message: String },
}

/// Mathematical model of a `Response`.
#[verifier::ext_equal]
pub enum ResponseV {
    Value { key: KeyV, value: ValueV },
    WriteAck { key: KeyV, timestamp: u64 },
    Error { key: KeyV, message: Seq<char> },
}

impl View for Response {
    type V = ResponseV;

    open spec fn view(&self) -> ResponseV {
        match self {
            Response::Value { key, value } => ResponseV::Value { key: key@, value: value@ },
            Response::WriteAck { key, timestamp } => ResponseV::WriteAck {
                key: key@,
                timestamp: *timestamp,
            },
            Response::Error { key, message } => ResponseV::Error {
                key: key@,
                message: message@,
            },
        }
    }
}

/// A request's response message envelope.
#[derive(Debug, Clone, PartialEq)]
pub struct ResponseMessage {
    pub message: Response,
    pub consistency: Consistency,
}

/// Mathematical model of a `ResponseMessage`.
#[verifier::ext_equal]
pub struct ResponseMessageV {
    pub message: ResponseV,
    pub consistency: Consistency,
}

impl View for ResponseMessage {
    type V = ResponseMessageV;

    open spec fn view(&self) -> ResponseMessageV {
        ResponseMessageV { message: self.message@, consistency: self.consistency }
    }
}

/// Request operations performed by a handler on the storage nodes.
#[derive(Debug, Clone, PartialEq)]
pub enum InternodeRequest {
    Read { key: Key },
    Write { key: Key, value: Value },
}

/// Mathematical model of an `InternodeRequest`.
#[verifier::ext_equal]
pub enum InternodeRequestV {
    Read { key: KeyV },
    Write { key: KeyV, value: ValueV },
}

impl View for InternodeRequest {
    type V = InternodeRequestV;

    open spec fn view(&self) -> InternodeRequestV {
        match self {
            InternodeRequest::Read { key } => InternodeRequestV::Read { key: key@ },
            InternodeRequest::Write { key, value } => InternodeRequestV::Write {
                key: key@,
                value: value@,
            },
        }
    }
}

/// A storage node's response to a handler.
#[derive(Debug, Clone, PartialEq)]
pub enum InternodeResponse {
    Value { key: Key, value: Value },
    WriteAck { key: Key, timestamp: u64 },
    Error { key: Key, message: String },
}

/// Mathematical model of an `InternodeResponse`.
#[verifier::ext_equal]
pub enum InternodeResponseV {
    Value { key: KeyV, value: ValueV },
    WriteAck { key: KeyV, timestamp: u64 },
    Error { key: KeyV, message: Seq<char> },
}

impl View for InternodeResponse {
    type V = InternodeResponseV;

    open spec fn view(&self) -> InternodeResponseV {
        match self {
            InternodeResponse::Value { key, value } => InternodeResponseV::Value {
                key: key@,
                value: value@,
            },
            InternodeResponse::WriteAck { key, timestamp } => InternodeResponseV::WriteAck {
                key: key@,
                timestamp: *timestamp,
            },
            InternodeResponse::Error { key, message } => InternodeResponseV::Error {
                key: key@,
                message: message@,
            },
        }
    }
}

/// The library's error taxonomy for the wire layer.
#[derive(Debug, Clone, Copy, PartialEq, Eq, Structural)]
pub enum Error {
    /// Error when binary encoding a message.
    EncodeError,
    /// Error when decoding a binary into a message.
    DecodeError,
    /// Connection error.
    ConnectionError,
}

/// The 64-bit partition hash of a partition key. Computed by a fixed
/// non-cryptographic hash whose exact algorithm is frozen as part of
/// the wire contract; its value is a function of the bytes alone.
pub uninterp spec fn hash64_of(pkey: Seq<u8>) -> u64;

/// Relies on `std::hash::SipHasher` (SipHash-2-4 with a zero key):
/// hashing a byte vector yields a 64-bit digest that depends on the
/// bytes alone and is stable across processes and releases.
#[allow(deprecated)]
#[verifier::external_body]
fn sip_hash64(bytes: &Vec<u8>) -> (r: u64)
    ensures
        r == hash64_of(bytes@),
{
    let mut hasher = std::hash::SipHasher::new();
    std::hash::Hash::hash(bytes, &mut hasher);
    std::hash::Hasher::finish(&hasher)
}

impl Value {
    /// The timestamp this value carries, if it has one.
    pub fn timestamp(&self) -> (r: Option<u64>)
        ensures
            r == value_timestamp(self@),
    {
        match self {
            Value::Absent => None,
            Value::Value { timestamp, .. } => Some(*timestamp),
            Value::Tombstone { timestamp } => Some(*timestamp),
        }
    }

    /// An identical copy of this value.
    pub fn duplicate(&self) -> (r: Value)
        ensures
            r@ == self@,
    {
        match self {
            Value::Absent => Value::Absent,
            Value::Value { content, timestamp } => Value::Value {
                content: vstd::slice::slice_to_vec(content.as_slice()),
                timestamp: *timestamp,
            },
            Value::Tombstone { timestamp } => Value::Tombstone { timestamp: *timestamp },
        }
    }
}

/// The shard index a key belongs to, among `shard_count` shards.
/// It depends on the partition key alone.
pub open spec fn shard_of(pkey: Seq<u8>, shard_count: int) -> int
    recommends
        shard_count > 0,
{
    hash64_of(pkey) as int % shard_count
}

impl Key {
    /// An identical copy of this key.
    pub fn duplicate(&self) -> (r: Key)
        ensures
            r@ == self@,
    {
        let r = Key {
            dataset: vstd::slice::slice_to_vec(self.dataset.as_slice()),
            pkey: vstd::slice::slice_to_vec(self.pkey.as_slice()),
            lkey: vstd::slice::slice_to_vec(self.lkey.as_slice()),
        };
        proof {
            assert(r@ =~= self@);
        }
        r
    }

    /// Return the ring hash for this key.
    pub fn hash(&self) -> (r: u64)
        ensures
            r == hash64_of(self.pkey@),
    {
        sip_hash64(&self.pkey)
    }

    /// Return the corresponding shard for this key, given a
    /// `shard_count` amount of shards. A shard count of zero is a
    /// configuration error and is rejected at startup.
    pub fn shard(&self, shard_count: usize) -> (r: usize)
        requires
            shard_count > 0,
        ensures
            r == shard_of(self.pkey@, shard_count as int),
            r < shard_count,
    {
        let h: u64 = self.hash();
        (h % (shard_count as u64)) as usize
    }
}

/// The shard assigned to a key depends only on its partition key:
/// two keys with equal `pkey` land on the same shard, whatever their
/// `dataset` and `lkey`.
pub proof fn lemma_shard_depends_only_on_pkey(k1: KeyV, k2: KeyV, shard_count: int)
    requires
        k1.pkey == k2.pkey,
        shard_count > 0,
    ensures
        shard_of(k1.pkey, shard_count) == shard_of(k2.pkey, shard_count),
{
}

impl InternodeResponse {
    /// An identical copy of this response.
    pub fn duplicate(&self) -> (r: InternodeResponse)
        ensures
            r@ == self@,
    {
        match self {
            InternodeResponse::Value { key, value } => InternodeResponse::Value {
                key: key.duplicate(),
                value: value.duplicate(),
            },
            InternodeResponse::WriteAck { key, timestamp } => InternodeResponse::WriteAck {
                key: key.duplicate(),
                timestamp: *timestamp,
            },
            InternodeResponse::Error { key, message } => InternodeResponse::Error {
                key: key.duplicate(),
                message: message.clone(),
            },
        }
    }

    /// If the response carries a timestamp, return it.
    pub fn get_timestamp(&self) -> (r: Option<u64>)
        ensures
            r == timestamp_of(self@),
    {
        match self {
            InternodeResponse::Value { value, .. } => {
                match value {
                    Value::Absent => None,
                    Value::Value { timestamp, .. } => Some(*timestamp),
                    Value::Tombstone { timestamp } => Some(*timestamp),
                }
            },
            InternodeResponse::WriteAck { timestamp, .. } => Some(*timestamp),
            InternodeResponse::Error { .. } => None,
        }
    }

    /// Cast this internode response into a handler-to-client response.
    pub fn to_response(self) -> (r: Response)
        ensures
            r@ == response_of(self@),
    {
        match self {
            InternodeResponse::Value { key, value } => Response::Value { key, value },
            InternodeResponse::WriteAck { key, timestamp } => Response::WriteAck {
                key,
                timestamp,
            },
            InternodeResponse::Error { key, message } => Response::Error { key, message },
        }
    }
}

/// The timestamp an internode response carries, if any: the stored
/// value's timestamp for a read reply, the acknowledged timestamp for
/// a write reply, nothing for an error or a read miss.
pub open spec fn timestamp_of(r: InternodeResponseV) -> Option<u64> {
    match r {
        InternodeResponseV::Value { value, .. } => value_timestamp(value),
        InternodeResponseV::WriteAck { timestamp, .. } => Some(timestamp),
        InternodeResponseV::Error { .. } => None,
    }
}

/// The handler-to-client response corresponding to an internode
/// response: the same payload, re-enveloped.
pub open spec fn response_of(r: InternodeResponseV) -> ResponseV {
    match r {
        InternodeResponseV::Value { key, value } => ResponseV::Value { key, value },
        InternodeResponseV::WriteAck { key, timestamp } => ResponseV::WriteAck { key, timestamp },
        InternodeResponseV::Error { key, message } => ResponseV::Error { key, message },
    }
}

} // verus!
